use vstd::prelude::*;

verus! {

/// One persisted score record: the unit of storage and the unit of output.
///
/// `name` is free-form text and may be empty; `score` and `level` are
/// non-negative integers, bounded by their types. A record is immutable
/// once written; the service never updates or deletes one.
pub struct ScoreEntry {
    pub name: String,
    pub score: u32,
    pub level: usize,
}

/// The mathematical value of a [`ScoreEntry`].
pub ghost struct EntryV {
    pub name: Seq<char>,
    pub score: u32,
    pub level: usize,
}

impl View for ScoreEntry {
    type V = EntryV;

    open spec fn view(&self) -> EntryV {
        EntryV { name: self.name@, score: self.score, level: self.level }
    }
}

impl ScoreEntry {
    /// Builds a record from its three attributes.
    pub fn add(name: String, score: u32, level: usize) -> (r: Self)
        ensures
            r@ == (EntryV { name: name@, score, level }),
    {
        ScoreEntry { level, name, score }
    }
}

} // verus!
