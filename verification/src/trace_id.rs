//! Trace identifiers.

use vstd::prelude::*;
use vstd::string::*;
use vstd::utf8::encode_utf8;

verus! {

/// Identifies one distributed trace.
///
/// Every span and event of a trace carries the same identifier, in this
/// process and in every other one the trace passes through. The text is not
/// parsed: any text is an identifier, and two identifiers are the same when
/// their texts are.
#[derive(PartialEq, Eq, Hash, Clone, Debug)]
pub struct TraceId(String);

impl View for TraceId {
    type V = Seq<char>;

    closed spec fn view(&self) -> Seq<char> {
        self.0@
    }
}

impl TraceId {
    /// Metadata field name associated with `TraceId` values.
    pub fn meta_field_name() -> (name: &'static str)
        ensures
            name@ == "trace-id"@,
    {
        "trace-id"
    }

    /// The identifier with the given text.
    pub fn new(text: String) -> (id: TraceId)
        ensures
            id@ == text@,
    {
        TraceId(text)
    }

    /// The identifier with the given text.
    pub fn from_str(s: &str) -> (id: TraceId)
        ensures
            id@ == s@,
    {
        TraceId(String::from_str(s))
    }

    /// The text of the identifier.
    pub fn as_str(&self) -> (s: &str)
        ensures
            s@ == self@,
    {
        self.0.as_str()
    }

    /// The text of the identifier.
    pub fn to_string(&self) -> (s: String)
        ensures
            s@ == self@,
    {
        self.0.clone()
    }

    /// The bytes of the identifier: its text in UTF-8.
    pub fn as_bytes(&self) -> (bytes: &[u8])
        ensures
            bytes@ == encode_utf8(self@),
    {
        self.0.as_str().as_bytes()
    }
}

} // verus!
