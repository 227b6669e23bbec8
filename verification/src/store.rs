//! The shared store: an insertion-ordered, unbounded, in-memory sequence of
//! records. Every operation works under exclusive access (`&mut` / `&`), so
//! no reader can observe a partially appended record; the process-wide
//! exclusivity primitive that serializes the two access surfaces wraps a
//! value of this type outside the library.

use vstd::prelude::*;

use crate::record::Record;
use crate::record::RecordView;

verus! {

/// The ordered collection of records. Its mathematical content is the
/// sequence of record views, in insertion order.
pub struct Store {
    records: Vec<Record>,
}

impl View for Store {
    type V = Seq<RecordView>;

    closed spec fn view(&self) -> Seq<RecordView> {
        self.records.deep_view()
    }
}

impl Store {
    /// A new store holds no records.
    pub fn new() -> (s: Store)
        ensures
            s@ == Seq::<RecordView>::empty(),
    {
        Store { records: Vec::new() }
    }

    /// The number of stored records.
    pub fn len(&self) -> (n: usize)
        ensures
            n == self@.len(),
    {
        self.records.len()
    }

    /// Appends one record at the end of the sequence; nothing else changes.
    pub fn append(&mut self, record: Record)
        ensures
            final(self)@ == old(self)@.push(record@),
    {
        self.records.push(record);
        proof {
            assert(self@ =~= old(self)@.push(record@));
        }
    }

    /// Returns a copy of all currently stored records, in insertion order.
    /// The copy is independent of the store: later appends or clears leave
    /// it untouched.
    pub fn snapshot(&self) -> (r: Vec<Record>)
        ensures
            r.deep_view() == self@,
    {
        let mut out: Vec<Record> = Vec::new();
        let mut i: usize = 0;
        while i < self.records.len()
            invariant
                i <= self.records.len(),
                out.deep_view() =~= self.records.deep_view().take(i as int),
            decreases self.records.len() - i,
        {
            let ghost prev = out.deep_view();
            out.push(self.records[i].clone());
            i = i + 1;
            proof {
                assert(out.deep_view() =~= prev.push(self.records@[i - 1].deep_view()));
                assert(out.deep_view() =~= self.records.deep_view().take(i as int));
            }
        }
        proof {
            assert(out.deep_view() =~= self@);
        }
        out
    }

    /// Empties the sequence.
    pub fn clear(&mut self)
        ensures
            final(self)@ == Seq::<RecordView>::empty(),
    {
        self.records = Vec::new();
        proof {
            assert(self@ =~= Seq::<RecordView>::empty());
        }
    }
}

} // verus!
