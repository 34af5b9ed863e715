//! An in-memory, append-only log of operation descriptions with a pop-last undo.
use vstd::prelude::*;

verus! {

/// One record of the journal. `committed` is set when the record is made.
pub struct JournalEntry {
    pub operation: String,
    pub committed: bool,
}

impl View for JournalEntry {
    type V = (Seq<char>, bool);

    open spec fn view(&self) -> (Seq<char>, bool) {
        (self.operation@, self.committed)
    }
}

/// The operation log. Undo only removes the last record: it reverts nothing else.
pub struct Journal {
    entries: Vec<JournalEntry>,
}

impl View for Journal {
    type V = Seq<(Seq<char>, bool)>;

    closed spec fn view(&self) -> Seq<(Seq<char>, bool)> {
        self.entries@.map_values(|e: JournalEntry| e@)
    }
}

impl Journal {
    pub fn new() -> (r: Self)
        ensures
            r@ == Seq::<(Seq<char>, bool)>::empty(),
    {
        let r = Journal { entries: Vec::new() };
        proof {
            assert(r@ =~= Seq::<(Seq<char>, bool)>::empty());
        }
        r
    }

    /// Appends a committed record.
    pub fn add_entry(&mut self, operation: String)
        ensures
            final(self)@ == old(self)@.push((operation@, true)),
    {
        let ghost op = operation@;
        self.entries.push(JournalEntry { operation, committed: true });
        proof {
            assert(self@ =~= old(self)@.push((op, true)));
        }
    }

    /// Removes the last record and returns its description; `None` on an empty journal.
    pub fn undo(&mut self) -> (r: Option<String>)
        ensures
            old(self)@.len() == 0 ==> r is None && final(self)@ == old(self)@,
            old(self)@.len() > 0 ==> r is Some && r->0@ == old(self)@.last().0
                && final(self)@ == old(self)@.drop_last(),
    {
        let popped = self.entries.pop();
        match popped {
            Some(entry) => {
                proof {
                    assert(self@ =~= old(self)@.drop_last());
                }
                Some(entry.operation)
            },
            None => {
                proof {
                    assert(self@ =~= old(self)@);
                }
                None
            },
        }
    }

    /// The records, oldest first.
    pub fn entries(&self) -> (r: &[JournalEntry])
        ensures
            r@.map_values(|e: JournalEntry| e@) == self@,
    {
        self.entries.as_slice()
    }

    pub fn len(&self) -> (r: usize)
        ensures
            r == self@.len(),
    {
        self.entries.len()
    }
}

} // verus!
