//! Span identifiers and their canonical text form.
//!
//! A span identifier is a locally assigned number, never zero, together with
//! an instance counter that keeps identifiers apart when the local numbers
//! are handed out again. Its text form is the lowercase hexadecimal numeral of
//! the local number, a `-`, and the numeral of the instance counter.

use crate::hex::{
    lemma_numeral_round_trip, lemma_numeral_shape, numeral, numeral_value, parse_hex, push_hex,
    IntErrorKind,
};
use crate::text::chars_of;
use vstd::prelude::*;
use vstd::string::*;

verus! {

/// The two numbers that make up a span identifier.
pub struct SpanIdView {
    /// The locally assigned number.
    pub local: u64,
    /// The instance counter.
    pub instance: u64,
}

/// Unique span identifier.
///
/// Writing an identifier with [`SpanId::to_string`] and reading the text back
/// with [`SpanId::from_str`] gives the identifier again.
#[derive(Clone, Copy, Debug, Eq, Hash, PartialEq)]
pub struct SpanId {
    tracing_id: u64,
    instance_id: u64,
}

/// Why a text is not the text form of a span identifier.
#[derive(Clone, Debug, Eq, PartialEq, Structural)]
pub enum ParseSpanIdError {
    /// One of the two numerals is malformed.
    ParseIntError(IntErrorKind),
    /// The local number is zero, which no span has.
    TryFromIntError,
    /// There is no `-` after the first numeral.
    FormatError,
}

/// How many characters stand before the first `-` of `text`, or in all of
/// `text` where it holds none.
pub open spec fn field_len(text: Seq<char>) -> nat
    decreases text.len(),
{
    if text.len() == 0 || text[0] == '-' {
        0
    } else {
        1 + field_len(text.drop_first())
    }
}

/// The canonical text form of an identifier.
pub open spec fn span_id_text(id: SpanIdView) -> Seq<char> {
    numeral(id.local as nat) + seq!['-'] + numeral(id.instance as nat)
}

/// What a text reads as. The text is cut at each `-`: the first piece is the
/// local number and the second the instance counter; further pieces are not
/// looked at. The local numeral is read first, so a text with a malformed
/// first piece and no `-` fails on the numeral; a zero local number is
/// reported only once both numerals have been read.
pub open spec fn parse_span_id(text: Seq<char>) -> Result<SpanIdView, ParseSpanIdError> {
    let n = field_len(text) as int;
    match numeral_value(text.take(n)) {
        Err(kind) => Err(ParseSpanIdError::ParseIntError(kind)),
        Ok(local) => if n == text.len() {
            Err(ParseSpanIdError::FormatError)
        } else {
            let rest = text.skip(n + 1);
            match numeral_value(rest.take(field_len(rest) as int)) {
                Err(kind) => Err(ParseSpanIdError::ParseIntError(kind)),
                Ok(instance) => if local == 0 {
                    Err(ParseSpanIdError::TryFromIntError)
                } else {
                    Ok(SpanIdView { local, instance })
                },
            }
        },
    }
}

/// The outcome of reading, with the identifier taken by its view.
pub open spec fn parsed_view(r: Result<SpanId, ParseSpanIdError>) -> Result<
    SpanIdView,
    ParseSpanIdError,
> {
    match r {
        Ok(id) => Ok(id@),
        Err(e) => Err(e),
    }
}

/// A position is the end of the first piece if no `-` stands before it and
/// the text ends there or holds a `-` there.
pub proof fn lemma_field_len(text: Seq<char>, k: int)
    requires
        0 <= k <= text.len(),
        forall|j: int| 0 <= j < k ==> text[j] != '-',
        k < text.len() ==> text[k] == '-',
    ensures
        field_len(text) == k,
    decreases k,
{
    if k > 0 {
        let tail = text.drop_first();
        assert forall|j: int| 0 <= j < k - 1 implies tail[j] != '-' by {
            assert(tail[j] == text[j + 1]);
        }
        lemma_field_len(tail, k - 1);
    }
}

/// Decoding the canonical text of an identifier whose local number is not
/// zero gives that identifier.
pub proof fn lemma_round_trip(id: SpanIdView)
    requires
        id.local > 0,
    ensures
        (parse_span_id(span_id_text(id)) == Ok::<SpanIdView, ParseSpanIdError>(id)),
{
    let a = numeral(id.local as nat);
    let b = numeral(id.instance as nat);
    let text = span_id_text(id);
    lemma_numeral_shape(id.local as nat);
    lemma_numeral_shape(id.instance as nat);
    lemma_numeral_round_trip(id.local as nat);
    lemma_numeral_round_trip(id.instance as nat);
    assert forall|j: int| 0 <= j < a.len() implies text[j] != '-' by {
        assert(text[j] == a[j]);
    }
    assert(text[a.len() as int] == '-');
    lemma_field_len(text, a.len() as int);
    assert(text.take(a.len() as int) =~= a);
    let rest = text.skip(a.len() as int + 1);
    assert(rest =~= b);
    lemma_field_len(b, b.len() as int);
    assert(b.take(b.len() as int) =~= b);
}

/// The end of the piece of `text` that starts at `from`.
fn piece_end(text: &Vec<char>, from: usize) -> (end: usize)
    requires
        from <= text.len(),
    ensures
        from <= end <= text.len(),
        end - from == field_len(text@.skip(from as int)),
{
    let mut end: usize = from;
    while end < text.len() && text[end] != '-'
        invariant
            from <= end <= text.len(),
            forall|j: int| from <= j < end ==> text@[j] != '-',
        decreases text.len() - end,
    {
        end = end + 1;
    }
    proof {
        lemma_field_len(text@.skip(from as int), end - from);
    }
    end
}

impl View for SpanId {
    type V = SpanIdView;

    closed spec fn view(&self) -> SpanIdView {
        SpanIdView { local: self.tracing_id, instance: self.instance_id }
    }
}

impl SpanId {
    #[verifier::type_invariant]
    closed spec fn local_is_set(self) -> bool {
        self.tracing_id != 0
    }

    /// Metadata field name associated with `SpanId` values.
    pub fn meta_field_name() -> (name: &'static str)
        ensures
            name@ == "span-id"@,
    {
        "span-id"
    }

    /// The identifier made of the two numbers; none where the local number is zero.
    pub fn new(tracing_id: u64, instance_id: u64) -> (r: Option<SpanId>)
        ensures
            r is None <==> tracing_id == 0,
            r matches Some(id) ==> id@ == (SpanIdView { local: tracing_id, instance: instance_id }),
    {
        if tracing_id == 0 {
            None
        } else {
            Some(SpanId { tracing_id, instance_id })
        }
    }

    /// The locally assigned number.
    pub fn tracing_id(&self) -> (n: u64)
        ensures
            n == self@.local,
            n != 0,
    {
        proof {
            use_type_invariant(self);
        }
        self.tracing_id
    }

    /// The instance counter.
    pub fn instance_id(&self) -> (n: u64)
        ensures
            n == self@.instance,
    {
        self.instance_id
    }

    /// The canonical text form. Reading it back gives this identifier.
    pub fn to_string(&self) -> (s: String)
        ensures
            s@ == span_id_text(self@),
            (parse_span_id(s@) == Ok::<SpanIdView, ParseSpanIdError>(self@)),
    {
        proof {
            reveal_strlit("-");
            use_type_invariant(self);
            lemma_round_trip(self@);
        }
        let mut s = String::new();
        push_hex(&mut s, self.tracing_id);
        s.append("-");
        push_hex(&mut s, self.instance_id);
        assert(s@ =~= span_id_text(self@));
        s
    }

    /// Parses a span identifier from its text form.
    pub fn from_str(s: &str) -> (r: Result<SpanId, ParseSpanIdError>)
        ensures
            parsed_view(r) == parse_span_id(s@),
            r matches Ok(id) ==> id@.local != 0,
    {
        let text = chars_of(s);
        let first_end = piece_end(&text, 0);
        assert(text@.skip(0) =~= text@);
        assert(text@.subrange(0, first_end as int) =~= text@.take(first_end as int));
        let tracing_id = match parse_hex(&text, 0, first_end) {
            Ok(n) => n,
            Err(kind) => {
                return Err(ParseSpanIdError::ParseIntError(kind));
            },
        };
        if first_end == text.len() {
            return Err(ParseSpanIdError::FormatError);
        }
        let second = first_end + 1;
        let second_end = piece_end(&text, second);
        let ghost rest = text@.skip(second as int);
        assert(text@.subrange(second as int, second_end as int) =~= rest.take(
            second_end - second,
        ));
        let instance_id = match parse_hex(&text, second, second_end) {
            Ok(n) => n,
            Err(kind) => {
                return Err(ParseSpanIdError::ParseIntError(kind));
            },
        };
        if tracing_id == 0 {
            return Err(ParseSpanIdError::TryFromIntError);
        }
        Ok(SpanId { tracing_id, instance_id })
    }
}

impl std::str::FromStr for SpanId {
    type Err = ParseSpanIdError;

    /// Parses a span identifier from its text form.
    fn from_str(s: &str) -> (r: Result<SpanId, ParseSpanIdError>)
        ensures
            parsed_view(r) == parse_span_id(s@),
    {
        SpanId::from_str(s)
    }
}

impl From<IntErrorKind> for ParseSpanIdError {
    fn from(kind: IntErrorKind) -> (e: ParseSpanIdError) {
        ParseSpanIdError::ParseIntError(kind)
    }
}

impl vstd::std_specs::convert::FromSpecImpl<IntErrorKind> for ParseSpanIdError {
    open spec fn obeys_from_spec() -> bool {
        true
    }

    open spec fn from_spec(kind: IntErrorKind) -> ParseSpanIdError {
        ParseSpanIdError::ParseIntError(kind)
    }
}

impl ParseSpanIdError {
    /// The text that describes the failure.
    pub open spec fn message(self) -> Seq<char> {
        match self {
            ParseSpanIdError::ParseIntError(IntErrorKind::Empty) => "cannot parse integer from empty string"@,
            ParseSpanIdError::ParseIntError(IntErrorKind::InvalidDigit) => "invalid digit found in string"@,
            ParseSpanIdError::ParseIntError(IntErrorKind::PosOverflow) => "number too large to fit in target type"@,
            ParseSpanIdError::TryFromIntError => "out of range integral type conversion attempted"@,
            ParseSpanIdError::FormatError => "FormatError"@,
        }
    }

    /// Describes the failure in words.
    pub fn to_string(&self) -> (s: String)
        ensures
            s@ == self.message(),
    {
        let text = match self {
            ParseSpanIdError::ParseIntError(IntErrorKind::Empty) => "cannot parse integer from empty string",
            ParseSpanIdError::ParseIntError(IntErrorKind::InvalidDigit) => "invalid digit found in string",
            ParseSpanIdError::ParseIntError(IntErrorKind::PosOverflow) => "number too large to fit in target type",
            ParseSpanIdError::TryFromIntError => "out of range integral type conversion attempted",
            ParseSpanIdError::FormatError => "FormatError",
        };
        String::from_str(text)
    }
}

} // verus!
