//! The step log: a full machine-state snapshot appended after every
//! executed instruction.  The log text accumulates here append-only; the
//! surrounding program decides where to put it on disk.

use vstd::prelude::*;

verus! {

/// The step log's state: the name of the file the log is destined for and
/// the text accumulated so far.
pub struct MachineStepLog {
    pub name: String,
    pub log: String,
}

impl MachineStepLog {
    /// An empty log destined for the file called `filename`.
    pub fn new(filename: &str) -> (r: MachineStepLog)
        ensures
            r.name@ == filename@,
            r.log@.len() == 0,
    {
        MachineStepLog { name: String::from_str(filename), log: String::new() }
    }

    /// Append one machine-state snapshot; the log only ever grows, and by
    /// exactly the snapshot handed in.
    pub fn step(&mut self, snapshot: &str)
        ensures
            final(self).name == old(self).name,
            final(self).log@ == old(self).log@ + snapshot@,
    {
        self.log.append(snapshot);
    }

    /// The accumulated log text.
    pub fn contents(&self) -> (r: &str)
        ensures
            r@ == self.log@,
    {
        self.log.as_str()
    }
}

} // verus!
