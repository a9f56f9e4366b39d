//! Span identifiers: a pair of a local span handle and an instance counter,
//! rendered as `"<local-id>-<instance-id>"`, with an exact parser and a
//! proved round trip on the valid construction domain.

use vstd::prelude::*;

use crate::decimal::dec_text;
use crate::decimal::dec_value;
use crate::decimal::is_u64_text;
use crate::decimal::lemma_dec_text_value;
use crate::decimal::parse_u64;
use crate::decimal::push_dec;
use crate::strutil::push_char;

verus! {

/// Identity of one span within a trace: the instrumentation layer's local
/// span handle plus an instance counter that disambiguates handle reuse.
/// Both components are at least 1 when constructed; the parser alone also
/// accepts 0 components.
#[derive(PartialEq, Eq, Structural, Hash, Clone, Copy, Debug)]
pub struct SpanId {
    pub local_id: u64,
    pub instance_id: u64,
}

/// Why a span identifier failed to parse.
#[derive(PartialEq, Eq, Structural, Hash, Clone, Copy, Debug)]
pub enum ParseSpanIdError {
    /// No `-` separator: fewer than two fields.
    FormatError,
    /// A field is empty, holds a non-digit, or is out of range for `u64`.
    ParseIntError,
}

/// The rendered text of a span identifier.
pub open spec fn span_id_text(local_id: u64, instance_id: u64) -> Seq<char> {
    dec_text(local_id as nat) + seq!['-'] + dec_text(instance_id as nat)
}

/// Index of the first `-` in `s`, or `s.len()` if there is none.
pub open spec fn hyphen_index(s: Seq<char>) -> int
    decreases s.len(),
{
    if s.len() == 0 {
        0
    } else if s[0] == '-' {
        0
    } else {
        1 + hyphen_index(s.drop_first())
    }
}

/// What parsing returns on each input: split at the first `-`; no separator
/// is a format error; each side must be a decimal `u64`.
pub open spec fn spec_parse_span_id(s: Seq<char>) -> Result<SpanId, ParseSpanIdError> {
    let i = hyphen_index(s);
    if i == s.len() {
        Err(ParseSpanIdError::FormatError)
    } else if is_u64_text(s.subrange(0, i)) && is_u64_text(s.subrange(i + 1, s.len() as int)) {
        Ok(
            SpanId {
                local_id: dec_value(s.subrange(0, i)) as u64,
                instance_id: dec_value(s.subrange(i + 1, s.len() as int)) as u64,
            },
        )
    } else {
        Err(ParseSpanIdError::ParseIntError)
    }
}

proof fn lemma_hyphen_index(s: Seq<char>)
    ensures
        0 <= hyphen_index(s) <= s.len(),
        hyphen_index(s) < s.len() ==> s[hyphen_index(s)] == '-',
        forall|j: int| 0 <= j < hyphen_index(s) ==> s[j] != '-',
    decreases s.len(),
{
    if s.len() > 0 && s[0] != '-' {
        lemma_hyphen_index(s.drop_first());
        assert forall|j: int| 0 <= j < hyphen_index(s) implies s[j] != '-' by {
            if j > 0 {
                assert(s.drop_first()[j - 1] == s[j]);
            }
        }
        if hyphen_index(s) < s.len() {
            assert(s.drop_first()[hyphen_index(s) - 1] == s[hyphen_index(s)]);
        }
    }
}

proof fn lemma_hyphen_index_at(s: Seq<char>, i: int)
    requires
        0 <= i < s.len(),
        s[i] == '-',
        forall|j: int| 0 <= j < i ==> s[j] != '-',
    ensures
        hyphen_index(s) == i,
    decreases s.len(),
{
    if i == 0 {
    } else {
        assert(s[0] != '-');
        assert(s.drop_first()[i - 1] == s[i]);
        assert forall|j: int| 0 <= j < i - 1 implies s.drop_first()[j] != '-' by {
            assert(s.drop_first()[j] == s[j + 1]);
        }
        lemma_hyphen_index_at(s.drop_first(), i - 1);
    }
}

/// Finds the first `-`, if any.
fn find_hyphen(s: &str) -> (r: Option<usize>)
    ensures
        r is Some <==> hyphen_index(s@) < s@.len(),
        r is Some ==> r->0 as int == hyphen_index(s@),
{
    let n: usize = s.unicode_len();
    let mut i: usize = 0;
    while i < n
        invariant
            0 <= i <= n,
            n == s@.len(),
            forall|j: int| 0 <= j < i ==> s@[j] != '-',
        decreases n - i,
    {
        if s.get_char(i) == '-' {
            proof {
                lemma_hyphen_index_at(s@, i as int);
            }
            return Some(i);
        }
        i = i + 1;
    }
    proof {
        lemma_hyphen_index(s@);
    }
    None
}

impl SpanId {
    /// Builds a span identifier; both components must be at least 1.
    pub fn new(local_id: u64, instance_id: u64) -> (r: SpanId)
        requires
            local_id >= 1,
            instance_id >= 1,
        ensures
            r == (SpanId { local_id, instance_id }),
    {
        SpanId { local_id, instance_id }
    }

    /// The key under which this identifier is attached to outgoing records.
    pub fn meta_field_name() -> (r: &'static str)
        ensures
            r@ == "span-id"@,
    {
        "span-id"
    }

    /// Renders `"<local-id>-<instance-id>"`.
    pub fn to_text(&self) -> (r: String)
        ensures
            r@ == span_id_text(self.local_id, self.instance_id),
    {
        let mut out = String::new();
        push_dec(self.local_id, &mut out);
        push_char(&mut out, '-');
        push_dec(self.instance_id, &mut out);
        proof {
            assert(out@ =~= span_id_text(self.local_id, self.instance_id));
        }
        out
    }

    /// Parses the rendered form back; exact on every input.
    pub fn from_text(s: &str) -> (r: Result<SpanId, ParseSpanIdError>)
        ensures
            r == spec_parse_span_id(s@),
    {
        let i = match find_hyphen(s) {
            None => {
                proof {
                    lemma_hyphen_index(s@);
                }
                return Err(ParseSpanIdError::FormatError);
            },
            Some(i) => i,
        };
        let n: usize = s.unicode_len();
        let left = s.substring_char(0, i);
        let right = s.substring_char(i + 1, n);
        let local_id = match parse_u64(left) {
            None => {
                return Err(ParseSpanIdError::ParseIntError);
            },
            Some(v) => v,
        };
        let instance_id = match parse_u64(right) {
            None => {
                return Err(ParseSpanIdError::ParseIntError);
            },
            Some(v) => v,
        };
        Ok(SpanId { local_id, instance_id })
    }
}

/// Round-trip law: parsing the rendered text of any span identifier with
/// both components at least 1 yields that identifier back.
pub proof fn lemma_span_id_round_trip(local_id: u64, instance_id: u64)
    requires
        local_id >= 1,
        instance_id >= 1,
    ensures
        spec_parse_span_id(span_id_text(local_id, instance_id)) == Ok::<
            SpanId,
            ParseSpanIdError,
        >(SpanId { local_id, instance_id }),
{
    lemma_dec_text_value(local_id as nat);
    lemma_dec_text_value(instance_id as nat);
    let a = dec_text(local_id as nat);
    let b = dec_text(instance_id as nat);
    let s = span_id_text(local_id, instance_id);
    let la = a.len() as int;
    assert(s.len() == a.len() + 1 + b.len());
    assert(s[la] == '-');
    assert forall|j: int| 0 <= j < la implies s[j] != '-' by {
        assert(s[j] == a[j]);
        assert('-' as int == 45);
    }
    lemma_hyphen_index_at(s, la);
    assert(s.subrange(0, la) =~= a);
    assert(s.subrange(la + 1, s.len() as int) =~= b);
}

} // verus!
