use vstd::prelude::*;
use crate::error::Error;
use crate::json::{
    invalid_unsigned_message, json_quoted, string_from_json, string_to_json, u64_from_json,
    u64_to_json,
};
use crate::text::{decimal, lemma_decimal_injective};

verus! {

/// Unsigned integer of at most 63 bits, the numeric identifiers of Janus.
#[derive(Copy, Clone, PartialEq, Eq, PartialOrd, Ord, Hash, Debug, Structural)]
pub struct U63(u64);

impl U63 {
    /// Largest value of a 63-bit unsigned identifier.
    pub const MAX: u64 = 9223372036854775807;

    /// The value stays within 63 bits.
    pub open spec fn wf(self) -> bool {
        self.spec_inner() <= U63::MAX
    }

    /// The value of this identifier.
    pub closed spec fn spec_inner(self) -> u64 {
        self.0
    }

    /// The identifier of value `value`.
    pub closed spec fn spec_new(value: u64) -> U63 {
        U63(value)
    }

    /// The identifier of value `value` has that value.
    pub proof fn lemma_spec_new(value: u64)
        ensures
            U63::spec_new(value).spec_inner() == value,
    {
    }

    #[verifier::type_invariant]
    spec fn within_63_bits(self) -> bool {
        self.0 <= U63::MAX
    }

    /// The value of this identifier, which is within 63 bits.
    pub fn value(&self) -> (r: u64)
        ensures
            r == self.spec_inner(),
            r <= U63::MAX,
            U63::spec_new(r) == *self,
    {
        proof {
            use_type_invariant(self);
        }
        self.0
    }

    fn new(value: u64) -> (r: U63)
        requires
            value <= U63::MAX,
        ensures
            r.spec_inner() == value,
            r.wf(),
    {
        U63(value)
    }

    fn inner(&self) -> (r: u64)
        ensures
            r == self.spec_inner(),
    {
        self.0
    }

    /// The identifier for `value`, where it has at most 63 bits.
    pub fn from_u64(value: u64) -> (r: Option<U63>)
        ensures
            r is Some <==> value <= U63::MAX,
            r is Some ==> r->Some_0.spec_inner() == value && r->Some_0.wf() && r->Some_0
                == U63::spec_new(value),
    {
        if value > U63::MAX {
            None
        } else {
            Some(U63::new(value))
        }
    }

    /// The identifier that a JSON reader produced, given what it read as an
    /// unsigned integer: a value above 63 bits is refused with the same
    /// message as any other value that is out of range.
    pub fn from_parsed(parsed: Result<u64, String>) -> (r: Result<U63, Error>)
        ensures
            r is Ok <==> (parsed is Ok && parsed->Ok_0 <= U63::MAX),
            r is Ok ==> r->Ok_0.spec_inner() == parsed->Ok_0 && r->Ok_0.wf() && r->Ok_0
                == U63::spec_new(parsed->Ok_0),
            parsed is Err ==> (r matches Err(Error::JsonParsingFailure(m)) && m == parsed->Err_0),
            (parsed is Ok && parsed->Ok_0 > U63::MAX) ==> r matches Err(Error::JsonParsingFailure(_)),
    {
        match parsed {
            Ok(value) => {
                if value > U63::MAX {
                    Err(
                        Error::JsonParsingFailure(
                            invalid_unsigned_message(
                                value,
                                "a value less than or equal to 9223372036854775807",
                            ),
                        ),
                    )
                } else {
                    Ok(U63::new(value))
                }
            },
            Err(m) => Err(Error::JsonParsingFailure(m)),
        }
    }

    /// Reads a JSON unsigned integer of at most 63 bits.
    pub fn from_json(text: &str) -> (r: Result<U63, Error>)
        ensures
            forall|n: u64| #[trigger] decimal(n as nat) == text@ ==> {
                &&& (r is Ok <==> n <= U63::MAX)
                &&& (r is Ok ==> r->Ok_0.spec_inner() == n && r->Ok_0.wf())
            },
            (exists|n: u64| decimal(n as nat) == text@) ==> {
                &&& (r is Ok <==> u63_of_text(text@) is Some)
                &&& (r is Ok ==> u63_of_text(text@) == Some(r->Ok_0.spec_inner()))
            },
    {
        proof {
            lemma_text_names_one(text@);
        }
        U63::from_parsed(u64_from_json(text))
    }

    /// Writes this identifier as a JSON integer.
    pub fn to_json(&self) -> (r: String)
        ensures
            r@ == decimal(self.spec_inner() as nat),
    {
        u64_to_json(self.0)
    }
}

impl TryFrom<u64> for U63 {
    type Error = std::num::TryFromIntError;

    fn try_from(value: u64) -> (r: Result<U63, std::num::TryFromIntError>)
        ensures
            r is Ok <==> value <= U63::MAX,
            r is Ok ==> r->Ok_0 == U63::spec_new(value),
    {
        if value > U63::MAX {
            // std offers no way to build this error but a conversion that fails
            match <u8 as TryFrom<u16>>::try_from(300u16) {
                Err(e) => Err(e),
                Ok(_) => {
                    proof {
                        assert(false);
                    }
                    Ok(U63::new(0))
                },
            }
        } else {
            Ok(U63::new(value))
        }
    }
}

impl vstd::std_specs::convert::TryFromSpecImpl<u64> for U63 {
    open spec fn obeys_try_from_spec() -> bool {
        false
    }

    open spec fn try_from_spec(v: u64) -> Result<U63, std::num::TryFromIntError> {
        arbitrary()
    }
}

impl From<U63> for u64 {
    fn from(value: U63) -> (r: u64) {
        value.inner()
    }
}

impl vstd::std_specs::convert::FromSpecImpl<U63> for u64 {
    open spec fn obeys_from_spec() -> bool {
        true
    }

    open spec fn from_spec(v: U63) -> u64 {
        v.spec_inner()
    }
}

/// Identifier of a room, a mountpoint or a participant: by default an
/// unsigned integer, a string where the plugin is configured so.
#[derive(Clone, PartialEq, Eq, PartialOrd, Ord, Hash, Debug)]
pub enum JanusId {
    /// String identifier
    String(String),
    /// Unsigned integer identifier
    Uint(U63),
}

/// The value that a JSON text of a 63-bit identifier reads back as: the
/// number whose decimal digits the text is, where it has at most 63 bits.
pub open spec fn u63_of_text(text: Seq<char>) -> Option<u64> {
    if exists|n: u64| decimal(n as nat) == text {
        let n = choose|n: u64| decimal(n as nat) == text;
        if n <= U63::MAX {
            Some(n)
        } else {
            None
        }
    } else {
        None
    }
}

/// A decimal text names one number at most.
proof fn lemma_text_names_one(text: Seq<char>)
    ensures
        forall|n: u64| #[trigger] decimal(n as nat) == text ==> n == choose|m: u64|
            decimal(m as nat) == text,
{
    assert forall|n: u64| #[trigger] decimal(n as nat) == text implies n == choose|m: u64|
        decimal(m as nat) == text by {
        let m = choose|m: u64| decimal(m as nat) == text;
        lemma_decimal_injective(n as nat, m as nat);
    }
}

/// A 63-bit identifier round-trips through its JSON text exactly when it has
/// at most 63 bits: `n` is written as `decimal(n)`, which reads back as `n`
/// when `n <= 2^63 - 1` and fails to read otherwise.
pub proof fn lemma_u63_json_round_trip(n: u64)
    ensures
        u63_of_text(decimal(n as nat)) == (if n <= U63::MAX { Some(n) } else { None::<u64> }),
{
    let text = decimal(n as nat);
    assert(exists|m: u64| decimal(m as nat) == text);
    let m = choose|m: u64| decimal(m as nat) == text;
    lemma_decimal_injective(m as nat, n as nat);
}

impl JanusId {
    /// Writes this identifier as JSON: a number as a JSON integer, a string
    /// as a JSON string.
    pub fn to_json(&self) -> (r: String)
        ensures
            self matches JanusId::Uint(u) ==> r@ == decimal(u.spec_inner() as nat),
            self matches JanusId::String(s) ==> r@ == json_quoted(s@),
    {
        match self {
            JanusId::String(s) => string_to_json(s.as_str()),
            JanusId::Uint(u) => u.to_json(),
        }
    }

    /// The identifier that a JSON reader produced, given what it read the
    /// text as, as a string and as an unsigned integer: the string where
    /// there is one, else the integer where it has at most 63 bits.
    pub fn from_parsed(as_string: Result<String, String>, as_integer: Result<u64, String>) -> (r:
        Result<JanusId, Error>)
        ensures
            as_string matches Ok(s) ==> r == Ok::<JanusId, Error>(JanusId::String(s)),
            as_string is Err ==> match as_integer {
                Ok(n) => if n <= U63::MAX {
                    r == Ok::<JanusId, Error>(JanusId::Uint(U63::spec_new(n)))
                } else {
                    r matches Err(Error::JsonParsingFailure(_))
                },
                Err(m) => r == Err::<JanusId, Error>(Error::JsonParsingFailure(m)),
            },
    {
        match as_string {
            Ok(s) => Ok(JanusId::String(s)),
            Err(_) => match U63::from_parsed(as_integer) {
                Ok(u) => Ok(JanusId::Uint(u)),
                Err(e) => Err(e),
            },
        }
    }

    /// Reads an identifier from JSON, trying a string first and then an
    /// unsigned integer of at most 63 bits; where neither fits, the error
    /// is that of the integer.
    pub fn from_json(text: &str) -> (r: Result<JanusId, Error>)
        ensures
            forall|s: Seq<char>| #[trigger] json_quoted(s) == text@ ==> (r matches Ok(
                JanusId::String(t),
            ) && t@ == s),
            forall|n: u64| #[trigger] decimal(n as nat) == text@ ==> {
                &&& (r is Ok <==> n <= U63::MAX)
                &&& (r is Ok ==> (r matches Ok(JanusId::Uint(u)) && u.spec_inner() == n))
            },
            (exists|n: u64| decimal(n as nat) == text@) ==> {
                &&& (r is Ok <==> u63_of_text(text@) is Some)
                &&& (r is Ok ==> (r matches Ok(JanusId::Uint(u)) && u63_of_text(text@) == Some(
                    u.spec_inner(),
                )))
            },
    {
        proof {
            lemma_text_names_one(text@);
        }
        JanusId::from_parsed(string_from_json(text), u64_from_json(text))
    }
}

} // verus!
