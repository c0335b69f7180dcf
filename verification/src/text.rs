use vstd::prelude::*;

verus! {

// ------------------------------------------------------------------
// Splitting an index document into lines and keeping the segment URLs
// ------------------------------------------------------------------

/// Drops one carriage return standing at the end of a line, as a line
/// break of the form `\r\n` leaves one there.
pub open spec fn strip_cr(line: Seq<char>) -> Seq<char> {
    if line.len() > 0 && line.last() == '\r' {
        line.drop_last()
    } else {
        line
    }
}

/// The lines of `text` when `cur` has already been read of the current
/// line: maximal runs between newline characters, a carriage return
/// directly before a newline dropped, and no empty final line after a
/// trailing newline.
pub open spec fn split_lines_from(text: Seq<char>, cur: Seq<char>) -> Seq<Seq<char>>
    decreases text.len(),
{
    if text.len() == 0 {
        if cur.len() == 0 {
            seq![]
        } else {
            seq![cur]
        }
    } else if text[0] == '\n' {
        seq![strip_cr(cur)] + split_lines_from(text.drop_first(), seq![])
    } else {
        split_lines_from(text.drop_first(), cur.push(text[0]))
    }
}

/// The lines of `text`.
pub open spec fn spec_lines(text: Seq<char>) -> Seq<Seq<char>> {
    split_lines_from(text, seq![])
}

/// Whether a line is recognized as a segment location: a well-formed
/// absolute secure URL, meaning the full `https://` scheme and
/// separator followed by a non-empty remainder. A line that carries
/// the scheme alone names no location and is dropped.
pub open spec fn is_secure_url(line: Seq<char>) -> bool {
    line.len() > 8 && line[0] == 'h' && line[1] == 't' && line[2] == 't' && line[3] == 'p'
        && line[4] == 's' && line[5] == ':' && line[6] == '/' && line[7] == '/'
}

/// The lines recognized as segment locations, in line order.
pub open spec fn secure_lines(lines: Seq<Seq<char>>) -> Seq<Seq<char>> {
    lines.filter(|l: Seq<char>| is_secure_url(l))
}

/// The ordered segment index an index document describes: its lines
/// that are well-formed absolute secure URLs, in the order the
/// document gives them.
pub open spec fn spec_index(text: Seq<char>) -> Seq<Seq<char>> {
    secure_lines(spec_lines(text))
}

/// Whether a line is a well-formed absolute secure URL.
fn line_is_secure(line: &str) -> (b: bool)
    ensures
        b == is_secure_url(line@),
{
    let n = line.unicode_len();
    if n < 9 {
        return false;
    }
    line.get_char(0) == 'h' && line.get_char(1) == 't' && line.get_char(2) == 't'
        && line.get_char(3) == 'p' && line.get_char(4) == 's' && line.get_char(5) == ':'
        && line.get_char(6) == '/' && line.get_char(7) == '/'
}

/// Splits an index document into lines and keeps, in order, exactly
/// the lines that are well-formed absolute secure URLs: the manifest's
/// ordered segment index.
pub fn index_from_text(text: &str) -> (index: Vec<String>)
    ensures
        index.deep_view() == spec_index(text@),
{
    let n = text.unicode_len();
    let mut index: Vec<String> = Vec::new();
    let ghost emitted: Seq<Seq<char>> = seq![];
    let mut emitted_g = Ghost(emitted);
    let mut start: usize = 0;
    let mut i: usize = 0;
    proof {
        broadcast use Seq::<_>::lemma_filter_push;

        assert(text@.subrange(0, 0) =~= Seq::<char>::empty());
        assert(text@.subrange(0, n as int) =~= text@);
        assert(emitted + split_lines_from(text@, text@.subrange(0, 0)) =~= split_lines_from(
            text@,
            text@.subrange(0, 0),
        ));
        assert(split_lines_from(text@, text@.subrange(0, 0)) == spec_lines(text@));
        assert(secure_lines(emitted) =~= index.deep_view());
    }
    while i < n
        invariant
            n == text@.len(),
            0 <= start <= i <= n,
            spec_lines(text@) == emitted_g@ + split_lines_from(
                text@.subrange(i as int, n as int),
                text@.subrange(start as int, i as int),
            ),
            index.deep_view() == secure_lines(emitted_g@),
        decreases n - i,
    {
        let c = text.get_char(i);
        proof {
            assert(text@.subrange(i as int, n as int)[0] == text@[i as int]);
            assert(text@.subrange(i as int, n as int).drop_first() =~= text@.subrange(
                i + 1,
                n as int,
            ));
        }
        if c == '\n' {
            let line_end = if i > start && text.get_char(i - 1) == '\r' {
                i - 1
            } else {
                i
            };
            proof {
                let cur = text@.subrange(start as int, i as int);
                if i > start && text@[i - 1] == '\r' {
                    assert(cur.last() == '\r');
                    assert(strip_cr(cur) =~= text@.subrange(start as int, line_end as int));
                } else {
                    assert(strip_cr(cur) =~= text@.subrange(start as int, line_end as int));
                }
            }
            let line = text.substring_char(start, line_end);
            let ghost l: Seq<char> = line@;
            proof {
                broadcast use Seq::<_>::lemma_filter_push;

                assert(emitted_g@ + (seq![l] + split_lines_from(
                    text@.subrange(i + 1, n as int),
                    seq![],
                )) =~= emitted_g@.push(l) + split_lines_from(
                    text@.subrange(i + 1, n as int),
                    seq![],
                ));
            }
            if line_is_secure(line) {
                let owned = line.to_owned();
                let ghost prev_dv = index.deep_view();
                index.push(owned);
                proof {
                    assert(index.deep_view() =~= prev_dv.push(l));
                }
            }
            proof {
                emitted_g@ = emitted_g@.push(l);
                assert(text@.subrange(i + 1, i + 1) =~= Seq::<char>::empty());
            }
            start = i + 1;
        } else {
            proof {
                assert(text@.subrange(start as int, i as int).push(text@[i as int]) =~= text@
                    .subrange(start as int, i + 1));
            }
        }
        i = i + 1;
    }
    proof {
        assert(text@.subrange(n as int, n as int) =~= Seq::<char>::empty());
    }
    if start < n {
        let line = text.substring_char(start, n);
        let ghost l: Seq<char> = line@;
        proof {
            broadcast use Seq::<_>::lemma_filter_push;

            assert(split_lines_from(Seq::<char>::empty(), l) == seq![l]);
            assert(emitted_g@ + seq![l] =~= emitted_g@.push(l));
        }
        if line_is_secure(line) {
            let owned = line.to_owned();
            let ghost prev_dv = index.deep_view();
            index.push(owned);
            proof {
                assert(index.deep_view() =~= prev_dv.push(l));
            }
        }
        proof {
            emitted_g@ = emitted_g@.push(l);
        }
    }
    index
}

// ------------------------------------------------------------------
// Extracting the encoded file id between its fixed textual markers
// ------------------------------------------------------------------

/// The marker that opens the encoded file id in a player page script.
pub open spec fn file_id_prefix() -> Seq<char> {
    seq!['f', 'i', 'l', 'e', ':', '"']
}

/// The marker that closes the encoded file id.
pub open spec fn file_id_suffix() -> Seq<char> {
    seq!['"', ',']
}

/// Whether `pat` stands in `text` at position `i`.
pub open spec fn matches_at(text: Seq<char>, i: int, pat: Seq<char>) -> bool {
    0 <= i && i + pat.len() <= text.len() && text.subrange(i, i + pat.len()) == pat
}

/// The first position at or after `i` where `pat` stands in `text`.
/// An empty pattern counts as never found.
pub open spec fn find_from(text: Seq<char>, i: int, pat: Seq<char>) -> Option<int>
    recommends
        0 <= i,
    decreases text.len() - i,
{
    if pat.len() == 0 || i + pat.len() > text.len() {
        None
    } else if matches_at(text, i, pat) {
        Some(i)
    } else {
        find_from(text, i + 1, pat)
    }
}

/// A found position lies at or after where the search began, and the
/// pattern really stands there.
proof fn lemma_find_from_bounds(text: Seq<char>, i: int, pat: Seq<char>)
    requires
        0 <= i,
    ensures
        find_from(text, i, pat) matches Some(j) ==> i <= j && matches_at(text, j, pat),
    decreases text.len() - i,
{
    if pat.len() == 0 || i + pat.len() > text.len() {
    } else if matches_at(text, i, pat) {
    } else {
        lemma_find_from_bounds(text, i + 1, pat);
    }
}

/// The encoded file id `text` carries: the run between the first
/// opening marker and the first closing marker after it, or nothing if
/// either marker is absent.
pub open spec fn spec_extract_file_id(text: Seq<char>) -> Option<Seq<char>> {
    match find_from(text, 0, file_id_prefix()) {
        Option::None => Option::None,
        Option::Some(i) => match find_from(text, i + file_id_prefix().len(), file_id_suffix()) {
            Option::None => Option::None,
            Option::Some(j) => Option::Some(text.subrange(i + file_id_prefix().len(), j)),
        },
    }
}

/// Whether the opening marker stands at position `i`.
fn prefix_matches_at(text: &str, i: usize) -> (b: bool)
    requires
        i + 6 <= text@.len(),
        text@.len() <= usize::MAX,
    ensures
        b == matches_at(text@, i as int, file_id_prefix()),
{
    let b = text.get_char(i) == 'f' && text.get_char(i + 1) == 'i' && text.get_char(i + 2) == 'l'
        && text.get_char(i + 3) == 'e' && text.get_char(i + 4) == ':' && text.get_char(i + 5)
        == '"';
    proof {
        let sub = text@.subrange(i as int, i + 6);
        assert(sub[0] == text@[i as int] && sub[1] == text@[i + 1] && sub[2] == text@[i + 2]
            && sub[3] == text@[i + 3] && sub[4] == text@[i + 4] && sub[5] == text@[i + 5]);
        if b {
            assert(sub =~= file_id_prefix());
        }
        if sub == file_id_prefix() {
            assert(sub[0] == 'f' && sub[1] == 'i' && sub[2] == 'l' && sub[3] == 'e' && sub[4] == ':'
                && sub[5] == '"');
        }
    }
    b
}

/// Whether the closing marker stands at position `i`.
fn suffix_matches_at(text: &str, i: usize) -> (b: bool)
    requires
        i + 2 <= text@.len(),
        text@.len() <= usize::MAX,
    ensures
        b == matches_at(text@, i as int, file_id_suffix()),
{
    let b = text.get_char(i) == '"' && text.get_char(i + 1) == ',';
    proof {
        let sub = text@.subrange(i as int, i + 2);
        assert(sub[0] == text@[i as int] && sub[1] == text@[i + 1]);
        if b {
            assert(sub =~= file_id_suffix());
        }
        if sub == file_id_suffix() {
            assert(sub[0] == '"' && sub[1] == ',');
        }
    }
    b
}

/// The first position at or after `from` where the opening marker
/// stands.
fn find_prefix_from(text: &str, from: usize) -> (r: Option<usize>)
    requires
        from <= text@.len(),
    ensures
        match r {
            Some(i) => find_from(text@, from as int, file_id_prefix()) == Some(i as int),
            None => find_from(text@, from as int, file_id_prefix()) is None,
        },
{
    let n = text.unicode_len();
    let mut i: usize = from;
    while i < n && n - i >= 6
        invariant
            n == text@.len(),
            from <= i,
            i <= n || i == from,
            find_from(text@, from as int, file_id_prefix()) == find_from(
                text@,
                i as int,
                file_id_prefix(),
            ),
        decreases n - i,
    {
        if prefix_matches_at(text, i) {
            return Some(i);
        }
        i = i + 1;
    }
    None
}

/// The first position at or after `from` where the closing marker
/// stands.
fn find_suffix_from(text: &str, from: usize) -> (r: Option<usize>)
    requires
        from <= text@.len(),
    ensures
        match r {
            Some(j) => find_from(text@, from as int, file_id_suffix()) == Some(j as int),
            None => find_from(text@, from as int, file_id_suffix()) is None,
        },
{
    let n = text.unicode_len();
    let mut i: usize = from;
    while i < n && n - i >= 2
        invariant
            n == text@.len(),
            from <= i,
            i <= n || i == from,
            find_from(text@, from as int, file_id_suffix()) == find_from(
                text@,
                i as int,
                file_id_suffix(),
            ),
        decreases n - i,
    {
        if suffix_matches_at(text, i) {
            return Some(i);
        }
        i = i + 1;
    }
    None
}

/// Pulls the encoded file id out of a player page's script text, by
/// its fixed textual markers: the id is what stands between the first
/// `file:"` and the next `",`. `None` means the marker is missing or
/// malformed, which callers report as an invalid file id.
pub fn extract_file_id(text: &str) -> (id: Option<String>)
    ensures
        match id {
            Some(s) => spec_extract_file_id(text@) == Some(s@),
            None => spec_extract_file_id(text@) is None,
        },
{
    let n = text.unicode_len();
    match find_prefix_from(text, 0) {
        None => None,
        Some(i) => {
            proof {
                lemma_find_from_bounds(text@, 0, file_id_prefix());
                assert(i + 6 <= n);
            }
            match find_suffix_from(text, i + 6) {
                None => None,
                Some(j) => {
                    proof {
                        lemma_find_from_bounds(text@, i + 6, file_id_suffix());
                    }
                    Some(text.substring_char(i + 6, j).to_owned())
                },
            }
        },
    }
}

// ------------------------------------------------------------------
// Trimming blank space from a decoded URL
// ------------------------------------------------------------------

/// The characters trimmed from a decoded URL's ends: space, tab,
/// carriage return and line feed. The set is deliberately this ASCII
/// one, not all of Unicode's whitespace — what surrounds a decoded URL
/// is the line break and padding of the channel that carried it.
pub open spec fn is_blank(c: char) -> bool {
    c == ' ' || c == '\t' || c == '\r' || c == '\n'
}

/// `s` without its leading blanks.
pub open spec fn drop_leading(s: Seq<char>) -> Seq<char>
    decreases s.len(),
{
    if s.len() > 0 && is_blank(s[0]) {
        drop_leading(s.drop_first())
    } else {
        s
    }
}

/// `s` without its trailing blanks.
pub open spec fn drop_trailing(s: Seq<char>) -> Seq<char>
    decreases s.len(),
{
    if s.len() > 0 && is_blank(s.last()) {
        drop_trailing(s.drop_last())
    } else {
        s
    }
}

/// `s` without leading and trailing blanks.
pub open spec fn spec_trim(s: Seq<char>) -> Seq<char> {
    drop_trailing(drop_leading(s))
}

/// Whether `c` is one of the trimmed blank characters.
fn is_blank_char(c: char) -> (b: bool)
    ensures
        b == is_blank(c),
{
    c == ' ' || c == '\t' || c == '\r' || c == '\n'
}

/// Trims blank space — the four characters of [`is_blank`] — from
/// both ends of a decoded URL, as an external decoder's output ends
/// with the line break that carried it.
pub fn trim_blank(s: &str) -> (t: String)
    ensures
        t@ == spec_trim(s@),
{
    let n = s.unicode_len();
    proof {
        assert(s@.subrange(0, n as int) =~= s@);
    }
    let mut a: usize = 0;
    while a < n && is_blank_char(s.get_char(a))
        invariant
            n == s@.len(),
            a <= n,
            drop_leading(s@) == drop_leading(s@.subrange(a as int, n as int)),
        decreases n - a,
    {
        proof {
            assert(s@.subrange(a as int, n as int)[0] == s@[a as int]);
            assert(s@.subrange(a as int, n as int).drop_first() =~= s@.subrange(a + 1, n as int));
        }
        a = a + 1;
    }
    proof {
        if a < n {
            assert(s@.subrange(a as int, n as int)[0] == s@[a as int]);
        }
        assert(drop_leading(s@.subrange(a as int, n as int)) == s@.subrange(a as int, n as int));
    }
    let mut b: usize = n;
    while b > a && is_blank_char(s.get_char(b - 1))
        invariant
            n == s@.len(),
            a <= b <= n,
            drop_leading(s@) == s@.subrange(a as int, n as int),
            drop_trailing(s@.subrange(a as int, n as int)) == drop_trailing(
                s@.subrange(a as int, b as int),
            ),
        decreases b,
    {
        proof {
            let cur = s@.subrange(a as int, b as int);
            assert(cur.last() == s@[b - 1]);
            assert(cur.drop_last() =~= s@.subrange(a as int, b - 1));
        }
        b = b - 1;
    }
    proof {
        let cur = s@.subrange(a as int, b as int);
        if b > a {
            assert(cur.last() == s@[b - 1]);
        }
        assert(drop_trailing(cur) == cur);
    }
    s.substring_char(a, b).to_owned()
}

} // verus!
