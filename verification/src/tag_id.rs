//! The fixed-length hexadecimal tag identifier.
//!
//! A `Hex14` is exactly fourteen ASCII hex digits, stored upper-case.
//! Construction validates an arbitrary string and normalizes its case;
//! afterwards the value is immutable and always canonical.

use vstd::prelude::*;
use vstd::string::StrSliceExecFns;

use crate::hexchar::{
    hex_digit, is_hex_digit, is_upper_hex_digit, lemma_to_upper_hex, to_upper_hex, upper_hex,
};
use crate::text::{push_char, str_eq};

verus! {

/// Every character of `s` is an ASCII hex digit, in either case.
pub open spec fn all_hex_digits(s: Seq<char>) -> bool {
    forall|i: int| 0 <= i < s.len() ==> is_hex_digit(#[trigger] s[i])
}

/// `s` is acceptable input for a tag identifier: exactly fourteen hex digits.
pub open spec fn hex14_ok(s: Seq<char>) -> bool {
    s.len() == 14 && all_hex_digits(s)
}

/// `s` is a canonical tag identifier: fourteen upper-case hex digits.
pub open spec fn hex14_canonical(s: Seq<char>) -> bool {
    s.len() == 14 && forall|i: int| 0 <= i < s.len() ==> is_upper_hex_digit(#[trigger] s[i])
}

/// The character-wise upper-case image of `s` (hex letters only).
pub open spec fn upper_hex_seq(s: Seq<char>) -> Seq<char> {
    Seq::new(s.len(), |i: int| to_upper_hex(s[i]))
}

/// `c` is the first character of `s` that is not a hex digit.
pub open spec fn first_non_hex_is(s: Seq<char>, c: char) -> bool {
    !is_hex_digit(c) && exists|i: int|
        0 <= i < s.len() && s[i] == c && (forall|j: int| 0 <= j < i ==> is_hex_digit(#[trigger] s[j]))
}

/// A fixed-length, 14-character hexadecimal tag identifier.
#[derive(Debug, Hash)]
pub struct Hex14(String);

/// Why a string was rejected as a tag identifier.
#[derive(Debug, Clone, Copy, PartialEq, Eq, Structural)]
pub enum Hex14Error {
    /// The input was not exactly fourteen characters long; carries the
    /// actual character count.
    InvalidLength(usize),
    /// The input had the right length but held a character that is not an
    /// ASCII hex digit; carries the first such character.
    InvalidCharacter(char),
}

impl View for Hex14 {
    type V = Seq<char>;

    closed spec fn view(&self) -> Seq<char> {
        self.0@
    }
}

impl Hex14 {
    /// Every value of this type is canonical.
    #[verifier::type_invariant]
    pub open spec fn inv(&self) -> bool {
        hex14_canonical(self@)
    }

    /// Validate `s` and build the canonical (upper-case) identifier.
    ///
    /// Fails with `InvalidLength` whenever the character count is not
    /// fourteen, and otherwise with `InvalidCharacter` naming the first
    /// character that is not an ASCII hex digit.
    pub fn new(s: &str) -> (r: Result<Hex14, Hex14Error>)
        ensures
            match r {
                Ok(h) => hex14_ok(s@) && h@ == upper_hex_seq(s@) && hex14_canonical(h@),
                Err(e) => !hex14_ok(s@) && match e {
                    Hex14Error::InvalidLength(n) => s@.len() != 14 && n == s@.len(),
                    Hex14Error::InvalidCharacter(c) => s@.len() == 14 && first_non_hex_is(s@, c),
                },
            },
    {
        let len = s.unicode_len();
        if len != 14 {
            return Err(Hex14Error::InvalidLength(len));
        }
        let mut out = String::new();
        let mut i: usize = 0;
        while i < 14
            invariant
                i <= 14,
                s@.len() == 14,
                out@.len() == i,
                forall|j: int| 0 <= j < i ==> is_hex_digit(#[trigger] s@[j]),
                forall|j: int| 0 <= j < i ==> out@[j] == to_upper_hex(#[trigger] s@[j]),
            decreases 14 - i,
        {
            let c = s.get_char(i);
            if !hex_digit(c) {
                return Err(Hex14Error::InvalidCharacter(c));
            }
            push_char(&mut out, upper_hex(c));
            i += 1;
        }
        proof {
            assert(out@ =~= upper_hex_seq(s@));
            assert forall|j: int| 0 <= j < out@.len() implies is_upper_hex_digit(#[trigger] out@[j]) by {
                lemma_to_upper_hex(s@[j]);
            }
        }
        Ok(Hex14(out))
    }

    /// The canonical fourteen-digit rendering.
    pub fn as_str(&self) -> (r: &str)
        ensures
            r@ == self@,
            hex14_canonical(r@),
    {
        proof {
            use_type_invariant(self);
        }
        self.0.as_str()
    }
}

/// Validated construction is idempotent: re-parsing a canonical rendering
/// changes nothing.
pub proof fn lemma_new_idempotent(s: Seq<char>)
    requires
        hex14_ok(s),
    ensures
        hex14_ok(upper_hex_seq(s)),
        upper_hex_seq(upper_hex_seq(s)) == upper_hex_seq(s),
{
    assert forall|i: int| 0 <= i < upper_hex_seq(s).len() implies is_hex_digit(
        #[trigger] upper_hex_seq(s)[i],
    ) by {
        lemma_to_upper_hex(s[i]);
    }
    assert forall|i: int| 0 <= i < upper_hex_seq(s).len() implies upper_hex_seq(upper_hex_seq(s))[i]
        == upper_hex_seq(s)[i] by {
        lemma_to_upper_hex(s[i]);
    }
    assert(upper_hex_seq(upper_hex_seq(s)) =~= upper_hex_seq(s));
}

impl Clone for Hex14 {
    fn clone(&self) -> (r: Hex14)
        ensures
            r@ == self@,
    {
        proof {
            use_type_invariant(self);
        }
        Hex14(self.0.clone())
    }
}

impl PartialEq for Hex14 {
    fn eq(&self, other: &Hex14) -> (r: bool) {
        str_eq(self.0.as_str(), other.0.as_str())
    }
}

impl vstd::std_specs::cmp::PartialEqSpecImpl for Hex14 {
    open spec fn obeys_eq_spec() -> bool {
        true
    }

    open spec fn eq_spec(&self, other: &Hex14) -> bool {
        self@ == other@
    }
}

impl Eq for Hex14 {

}

impl PartialEq<&str> for Hex14 {
    fn eq(&self, other: &&str) -> (r: bool) {
        str_eq(self.0.as_str(), *other)
    }
}

impl vstd::std_specs::cmp::PartialEqSpecImpl<&str> for Hex14 {
    open spec fn obeys_eq_spec() -> bool {
        true
    }

    open spec fn eq_spec(&self, other: &&str) -> bool {
        self@ == (*other)@
    }
}

impl PartialEq<String> for Hex14 {
    fn eq(&self, other: &String) -> (r: bool) {
        str_eq(self.0.as_str(), other.as_str())
    }
}

impl vstd::std_specs::cmp::PartialEqSpecImpl<String> for Hex14 {
    open spec fn obeys_eq_spec() -> bool {
        true
    }

    open spec fn eq_spec(&self, other: &String) -> bool {
        self@ == other@
    }
}

impl From<Hex14> for String {
    fn from(h: Hex14) -> (r: String) {
        h.0
    }
}

impl vstd::std_specs::convert::FromSpecImpl<Hex14> for String {
    open spec fn obeys_from_spec() -> bool {
        true
    }

    closed spec fn from_spec(h: Hex14) -> String {
        h.0
    }
}

impl core::str::FromStr for Hex14 {
    type Err = Hex14Error;

    fn from_str(s: &str) -> Result<Hex14, Hex14Error> {
        Hex14::new(s)
    }
}

} // verus!
