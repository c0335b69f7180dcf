use vstd::prelude::*;
use crate::manifest::{Manifest, ManifestView};

verus! {

/// The extension every finished artifact carries.
pub open spec fn artifact_extension() -> Seq<char> {
    ".mp4"@
}

/// The season label, zero-padded to at least two digits, behind the
/// fixed directory prefix: season `"3"` lies in `Season 03`.
pub open spec fn season_dir(season: Seq<char>) -> Seq<char> {
    "Season "@ + (if season.len() >= 2 {
        season
    } else if season.len() == 1 {
        seq!['0'] + season
    } else {
        seq!['0', '0']
    })
}

/// Where one manifest's artifact lies, relative to the working
/// directory: `<title>.mp4`, under the season directory when the
/// manifest carries series coordinates, under the caller's base
/// directory when one is given. A manifest without a season ignores
/// the base directory and lies directly in the working directory.
pub open spec fn artifact_path(manifest: ManifestView, base: Option<Seq<char>>) -> Seq<char> {
    let file = manifest.title + artifact_extension();
    match manifest.season {
        None => file,
        Some(season) => match base {
            None => season_dir(season) + seq!['/'] + file,
            Some(b) => b + seq!['/'] + season_dir(season) + seq!['/'] + file,
        },
    }
}

/// The file name one manifest's artifact carries.
pub fn artifact_file_name(title: &str) -> (name: String)
    ensures
        name@ == title@ + artifact_extension(),
{
    let mut name = String::from_str(title);
    name.append(".mp4");
    name
}

/// The zero-padded season directory name.
pub fn season_dir_name(season: &str) -> (name: String)
    ensures
        name@ == season_dir(season@),
{
    let mut name = String::from_str("Season ");
    let len = season.unicode_len();
    if len == 0 {
        name.append("00");
        proof {
            reveal_strlit("00");
            reveal_strlit("0");
            assert("00"@ =~= seq!['0', '0']);
        }
    } else if len == 1 {
        name.append("0");
        name.append(season);
        proof {
            reveal_strlit("0");
            assert("0"@ =~= seq!['0']);
        }
    } else {
        name.append(season);
    }
    name
}

/// The artifact path for one manifest, relative to the working
/// directory, with `/` separating its components.
pub fn artifact_relative_path(manifest: &Manifest, base: Option<&String>) -> (path: String)
    ensures
        path@ == artifact_path(
            manifest@,
            match base {
                Some(b) => Some(b@),
                None => None,
            },
        ),
{
    let file = artifact_file_name(manifest.title.as_str());
    match &manifest.season {
        None => file,
        Some(season) => {
            let dir = season_dir_name(season.as_str());
            let mut path = match base {
                Some(b) => {
                    let mut p = b.clone();
                    p.append("/");
                    p
                },
                None => String::new(),
            };
            path.append(dir.as_str());
            path.append("/");
            path.append(file.as_str());
            proof {
                reveal_strlit("/");
                assert("/"@ =~= seq!['/']);
            }
            path
        },
    }
}

} // verus!
