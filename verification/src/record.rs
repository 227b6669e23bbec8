//! The record ("dump") stored per entry: an opaque payload container whose
//! fields the store never validates, normalizes or interprets.

use vstd::prelude::*;

verus! {

/// One diagnostic entry. `kind` is the event's string tag (the wire format
/// calls the field `type`), `timestamp` is caller-supplied and opaque,
/// `output` is the payload, and `file` / `line` are optional source
/// coordinates. Records are immutable once stored.
pub struct Record {
    pub kind: String,
    pub timestamp: String,
    pub output: String,
    pub file: Option<String>,
    pub line: Option<i32>,
}

/// The mathematical shape of a record: every string field as a sequence of
/// characters.
pub ghost struct RecordView {
    pub kind: Seq<char>,
    pub timestamp: Seq<char>,
    pub output: Seq<char>,
    pub file: Option<Seq<char>>,
    pub line: Option<i32>,
}

impl View for Record {
    type V = RecordView;

    open spec fn view(&self) -> RecordView {
        RecordView {
            kind: self.kind@,
            timestamp: self.timestamp@,
            output: self.output@,
            file: match self.file {
                Some(f) => Some(f@),
                None => None,
            },
            line: self.line,
        }
    }
}

impl DeepView for Record {
    type V = RecordView;

    open spec fn deep_view(&self) -> RecordView {
        self.view()
    }
}

impl Clone for Record {
    /// A cloned record carries exactly the fields of the original.
    fn clone(&self) -> (r: Self)
        ensures
            r@ == self@,
    {
        Record {
            kind: self.kind.clone(),
            timestamp: self.timestamp.clone(),
            output: self.output.clone(),
            file: match &self.file {
                Some(f) => Some(f.clone()),
                None => None,
            },
            line: self.line,
        }
    }
}

} // verus!
