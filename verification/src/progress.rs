use vstd::prelude::*;

verus! {

/// The number of download workers a pool runs by default, and the
/// number of progress slots an [`App`] owns.
pub const DEFAULT_WORKERS: usize = 4;

/// The state behind a progress display: the title currently being
/// downloaded, if any, and one percentage slot per worker.
///
/// Each worker owns exactly one slot — its own worker index — and
/// never touches another worker's slot, so updates from distinct
/// workers never interfere.
#[derive(Debug)]
pub struct App {
    pub title: Option<String>,
    pub percentages: Vec<u16>,
}

impl App {
    /// A fresh display state: no title, and one zeroed slot for each
    /// of the default pool's workers.
    pub fn new() -> (app: App)
        ensures
            app.title is None,
            app.percentages@ == seq![0u16, 0u16, 0u16, 0u16],
            app.percentages@.len() == DEFAULT_WORKERS,
    {
        let percentages: Vec<u16> = vec![0u16, 0u16, 0u16, 0u16];
        assert(percentages@ =~= seq![0u16, 0u16, 0u16, 0u16]);
        App { title: None, percentages }
    }

    /// Records one worker's progress, leaving every other slot and the
    /// title unchanged.
    pub fn set_percent(&mut self, worker: usize, value: u16)
        requires
            worker < old(self).percentages@.len(),
        ensures
            final(self).percentages@ == old(self).percentages@.update(worker as int, value),
            final(self).title == old(self).title,
    {
        self.percentages.set(worker, value);
    }

    /// Reads one worker's progress slot.
    pub fn percent_of(&self, worker: usize) -> (value: u16)
        requires
            worker < self.percentages@.len(),
        ensures
            value == self.percentages@[worker as int],
    {
        self.percentages[worker]
    }
}

/// The fraction `completed / total` of a chunk that has been fetched,
/// as a whole percentage, rounded down.
pub fn percent_complete(completed: usize, total: usize) -> (p: u16)
    requires
        0 < total,
        completed <= total,
    ensures
        p == (completed * 100) / (total as int),
        p <= 100,
{
    let p = (completed as u128 * 100) / (total as u128);
    assert((completed as int * 100) / (total as int) <= 100) by (nonlinear_arith)
        requires
            0 < total,
            completed <= total,
    ;
    p as u16
}

} // verus!
