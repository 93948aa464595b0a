//! The composite routing slug: `<id>` or `<id>x<tap-count>`.
//!
//! A slug is exactly fourteen upper-case hex digits, optionally followed
//! by the literal separator `x` and exactly six upper-case hex digits
//! carrying a 24-bit tap count. Decoding is strict (the whole string must
//! match), and encoding is its exact inverse over the valid domain.

use vstd::arithmetic::div_mod::{lemma_fundamental_div_mod, lemma_multiply_divide_lt};
use vstd::prelude::*;
use vstd::string::{StrSliceExecFns, StringExecFns};

use crate::hexchar::{
    hex_digit_val, hex_val, is_hex_digit, is_upper_hex_digit, lemma_to_upper_hex,
    lemma_upper_hex_char_val, to_upper_hex, upper_digit, upper_hex_char, upper_hex_digit,
};
use crate::tag_id::{hex14_canonical, upper_hex_seq, Hex14};
use crate::text::push_char;

verus! {

/// Numeric value of a big-endian run of hex digits.
pub open spec fn hex_num(s: Seq<char>) -> nat
    decreases s.len(),
{
    if s.len() == 0 {
        0
    } else {
        (hex_num(s.drop_last()) * 16 + hex_digit_val(s.last())) as nat
    }
}

/// The `k` low-order base-16 digits of `n`, as upper-case characters,
/// most significant first.
pub open spec fn hex_digits(n: nat, k: nat) -> Seq<char>
    decreases k,
{
    if k == 0 {
        Seq::empty()
    } else {
        hex_digits(n / 16, (k - 1) as nat).push(upper_hex_char((n % 16) as u32))
    }
}

/// `16^k`.
pub open spec fn pow16(k: nat) -> nat
    decreases k,
{
    if k == 0 {
        1
    } else {
        16 * pow16((k - 1) as nat)
    }
}

/// Every character of `s` is an upper-case hex digit.
pub open spec fn all_upper_hex(s: Seq<char>) -> bool {
    forall|i: int| 0 <= i < s.len() ==> is_upper_hex_digit(#[trigger] s[i])
}

/// `s` matches the slug grammar `HEX14 ("x" HEX6)?`, anchored at both ends.
pub open spec fn valid_slug(s: Seq<char>) -> bool {
    ||| (s.len() == 14 && all_upper_hex(s))
    ||| (s.len() == 21 && all_upper_hex(s.subrange(0, 14)) && s[14] == 'x' && all_upper_hex(
        s.subrange(15, 21),
    ))
}

/// The identifier part of a valid slug.
pub open spec fn slug_id_part(s: Seq<char>) -> Seq<char> {
    s.subrange(0, 14)
}

/// The tap-count part of a valid slug, absent when the suffix is absent.
pub open spec fn slug_tap_part(s: Seq<char>) -> Option<nat> {
    if s.len() == 14 {
        None
    } else {
        Some(hex_num(s.subrange(15, 21)))
    }
}

/// The slug rendering of an identifier and an optional tap count.
pub open spec fn slug_of(id: Seq<char>, tap_count: Option<u32>) -> Seq<char> {
    match tap_count {
        None => id,
        Some(t) => id + seq!['x'] + hex_digits(t as nat, 6),
    }
}

/// The creation-flow redirect path for a tag that has no stored record yet.
pub open spec fn creation_redirect_of(id: Seq<char>, tap_count: Option<u32>) -> Seq<char> {
    match tap_count {
        None => "/tag/create?id="@ + id,
        Some(t) => "/tag/create?id="@ + id + "&tap_count="@ + hex_digits(t as nat, 6),
    }
}

/// Why a slug was rejected.
#[derive(Debug, Clone, Copy, PartialEq, Eq, Structural)]
pub enum SlugError {
    /// The string does not match the slug grammar.
    MalformedSlug,
}

/// A decoded routing slug: the tag identifier and, when the suffix was
/// present, the 24-bit tap count. Transient; never stored.
#[derive(Debug)]
pub struct RoutingSlug {
    /// The tag identifier named by the first fourteen characters.
    pub id: Hex14,
    /// The tap count carried by the optional six-digit suffix.
    pub tap_count: Option<u32>,
}

impl Clone for RoutingSlug {
    fn clone(&self) -> (r: RoutingSlug)
        ensures
            r.id@ == self.id@,
            r.tap_count == self.tap_count,
    {
        RoutingSlug { id: self.id.clone(), tap_count: self.tap_count }
    }
}

impl RoutingSlug {
    /// The tap count fits in 24 bits.
    pub open spec fn wf(&self) -> bool {
        match self.tap_count {
            None => true,
            Some(t) => t <= 0xFFFFFF,
        }
    }
}

/// `hex_digits` always yields `k` upper-case hex digits.
pub proof fn lemma_hex_digits_shape(n: nat, k: nat)
    ensures
        hex_digits(n, k).len() == k,
        all_upper_hex(hex_digits(n, k)),
    decreases k,
{
    if k > 0 {
        lemma_hex_digits_shape(n / 16, (k - 1) as nat);
        lemma_upper_hex_char_val((n % 16) as u32);
        let prefix = hex_digits(n / 16, (k - 1) as nat);
        let whole = hex_digits(n, k);
        assert forall|i: int| 0 <= i < whole.len() implies is_upper_hex_digit(
            #[trigger] whole[i],
        ) by {
            if i < k - 1 {
                assert(whole[i] == prefix[i]);
            } else {
                assert(whole[i] == upper_hex_char((n % 16) as u32));
            }
        }
    }
}

/// Reading back the digits of `n` gives `n`, as long as `n` fits in `k`
/// digits.
pub proof fn lemma_hex_digits_value(n: nat, k: nat)
    requires
        n < pow16(k),
    ensures
        hex_num(hex_digits(n, k)) == n,
    decreases k,
{
    if k == 0 {
        assert(n == 0);
    } else {
        let q = n / 16;
        let prefix = hex_digits(q, (k - 1) as nat);
        let d = upper_hex_char((n % 16) as u32);
        lemma_hex_digits_shape(q, (k - 1) as nat);
        assert(hex_digits(n, k) == prefix.push(d));
        assert(prefix.push(d).drop_last() =~= prefix);
        assert(prefix.push(d).last() == d);
        lemma_upper_hex_char_val((n % 16) as u32);
        assert(hex_num(prefix.push(d)) == hex_num(prefix) * 16 + n % 16);
        lemma_multiply_divide_lt(n as int, 16, pow16((k - 1) as nat) as int);
        lemma_hex_digits_value(q, (k - 1) as nat);
        lemma_fundamental_div_mod(n as int, 16);
    }
}

/// `hex_num` of a six-character run, written out digit by digit.
pub proof fn lemma_hex_num6(s: Seq<char>)
    requires
        s.len() == 6,
    ensures
        hex_num(s) == ((((hex_digit_val(s[0]) * 16 + hex_digit_val(s[1])) * 16 + hex_digit_val(
            s[2],
        )) * 16 + hex_digit_val(s[3])) * 16 + hex_digit_val(s[4])) * 16 + hex_digit_val(s[5]),
{
    let s5 = s.drop_last();
    let s4 = s5.drop_last();
    let s3 = s4.drop_last();
    let s2 = s3.drop_last();
    let s1 = s2.drop_last();
    let s0 = s1.drop_last();
    assert(s0.len() == 0);
    assert(hex_num(s0) == 0);
    assert(s1.last() == s[0] && s2.last() == s[1] && s3.last() == s[2] && s4.last() == s[3]
        && s5.last() == s[4] && s.last() == s[5]);
    assert(hex_num(s1) == hex_digit_val(s[0]));
    assert(hex_num(s2) == hex_num(s1) * 16 + hex_digit_val(s[1]));
    assert(hex_num(s3) == hex_num(s2) * 16 + hex_digit_val(s[2]));
    assert(hex_num(s4) == hex_num(s3) * 16 + hex_digit_val(s[3]));
    assert(hex_num(s5) == hex_num(s4) * 16 + hex_digit_val(s[4]));
    assert(hex_num(s) == hex_num(s5) * 16 + hex_digit_val(s[5]));
}

/// The slug built from a canonical identifier and an in-range tap count is
/// valid, and its parts are exactly what went in. Together with the exact
/// contracts of `decode` and `encode` this is the round-trip law:
/// decoding an encoded pair returns the pair unchanged.
pub proof fn lemma_slug_round_trip(id: Seq<char>, tap_count: Option<u32>)
    requires
        hex14_canonical(id),
        tap_count matches Some(t) ==> t <= 0xFFFFFF,
    ensures
        valid_slug(slug_of(id, tap_count)),
        slug_id_part(slug_of(id, tap_count)) == id,
        match slug_tap_part(slug_of(id, tap_count)) {
            None => tap_count is None,
            Some(v) => tap_count matches Some(t) && v == t as nat,
        },
{
    let s = slug_of(id, tap_count);
    match tap_count {
        None => {
            assert(s.subrange(0, 14) =~= id);
        },
        Some(t) => {
            lemma_hex_digits_shape(t as nat, 6);
            assert(s.len() == 21);
            assert(s.subrange(0, 14) =~= id);
            assert(s.subrange(15, 21) =~= hex_digits(t as nat, 6));
            assert(s[14] == 'x');
            assert(pow16(6) == 0x1000000) by {
                reveal_with_fuel(pow16, 8);
            }
            lemma_hex_digits_value(t as nat, 6);
        },
    }
}

/// Parse a slug string. Strict: the whole string must match the grammar,
/// in upper case, with no surrounding characters; anything else is
/// `MalformedSlug`. An absent suffix decodes to an absent tap count — no
/// default is substituted here.
pub fn decode(s: &str) -> (r: Result<RoutingSlug, SlugError>)
    ensures
        match r {
            Ok(rs) => {
                &&& valid_slug(s@)
                &&& rs.id@ == slug_id_part(s@)
                &&& match rs.tap_count {
                    None => s@.len() == 14,
                    Some(t) => s@.len() == 21 && t as nat == hex_num(s@.subrange(15, 21))
                        && t <= 0xFFFFFF,
                }
                &&& rs.wf()
            },
            Err(e) => e == SlugError::MalformedSlug && !valid_slug(s@),
        },
{
    let len = s.unicode_len();
    if len != 14 && len != 21 {
        return Err(SlugError::MalformedSlug);
    }
    let mut i: usize = 0;
    while i < 14
        invariant
            i <= 14,
            s@.len() == 14 || s@.len() == 21,
            forall|j: int| 0 <= j < i ==> is_upper_hex_digit(#[trigger] s@[j]),
        decreases 14 - i,
    {
        if !upper_hex_digit(s.get_char(i)) {
            proof {
                if s@.len() == 21 {
                    assert(s@.subrange(0, 14)[i as int] == s@[i as int]);
                }
            }
            return Err(SlugError::MalformedSlug);
        }
        i += 1;
    }
    let idpart = s.substring_char(0, 14);
    proof {
        assert forall|j: int| 0 <= j < 14 implies is_hex_digit(#[trigger] idpart@[j]) by {
            assert(idpart@[j] == s@[j]);
        }
        assert forall|j: int| 0 <= j < 14 implies to_upper_hex(#[trigger] idpart@[j])
            == idpart@[j] by {
            lemma_to_upper_hex(idpart@[j]);
        }
        assert(upper_hex_seq(idpart@) =~= s@.subrange(0, 14));
    }
    let id = match Hex14::new(idpart) {
        Ok(h) => h,
        Err(_) => {
            proof {
                assert(idpart@.len() == 14);
                assert(crate::tag_id::hex14_ok(idpart@));
                assert(false);
            }
            return Err(SlugError::MalformedSlug);
        },
    };
    if len == 14 {
        proof {
            assert(valid_slug(s@));
        }
        return Ok(RoutingSlug { id, tap_count: None });
    }
    if s.get_char(14) != 'x' {
        return Err(SlugError::MalformedSlug);
    }
    let c0 = s.get_char(15);
    let c1 = s.get_char(16);
    let c2 = s.get_char(17);
    let c3 = s.get_char(18);
    let c4 = s.get_char(19);
    let c5 = s.get_char(20);
    if !(upper_hex_digit(c0) && upper_hex_digit(c1) && upper_hex_digit(c2) && upper_hex_digit(c3)
        && upper_hex_digit(c4) && upper_hex_digit(c5)) {
        proof {
            let tail = s@.subrange(15, 21);
            assert(tail[0] == c0 && tail[1] == c1 && tail[2] == c2 && tail[3] == c3 && tail[4]
                == c4 && tail[5] == c5);
            assert(!all_upper_hex(tail));
        }
        return Err(SlugError::MalformedSlug);
    }
    let v = ((((hex_val(c0) * 16 + hex_val(c1)) * 16 + hex_val(c2)) * 16 + hex_val(c3)) * 16
        + hex_val(c4)) * 16 + hex_val(c5);
    proof {
        lemma_hex_num6(s@.subrange(15, 21));
        assert forall|j: int| 0 <= j < 6 implies is_upper_hex_digit(
            #[trigger] s@.subrange(15, 21)[j],
        ) by {
            assert(s@.subrange(15, 21)[j] == s@[15 + j]);
        }
        assert(valid_slug(s@));
    }
    Ok(RoutingSlug { id, tap_count: Some(v) })
}

/// Render an identifier and an optional tap count as a slug: the
/// fourteen-digit identifier, then — when a tap count is present — the
/// separator `x` and exactly six upper-case hex digits.
pub fn encode(id: &Hex14, tap_count: Option<u32>) -> (r: String)
    requires
        tap_count matches Some(t) ==> t <= 0xFFFFFF,
    ensures
        r@ == slug_of(id@, tap_count),
        valid_slug(r@),
{
    let mut out = id.as_str().to_owned();
    match tap_count {
        None => {
            proof {
                lemma_slug_round_trip(id@, tap_count);
            }
            out
        },
        Some(t) => {
            push_char(&mut out, 'x');
            push_hex6(&mut out, t);
            proof {
                lemma_slug_round_trip(id@, tap_count);
                assert(out@ =~= slug_of(id@, tap_count));
            }
            out
        },
    }
}

/// The exact six-digit upper-case rendering of a 24-bit tap count, as it
/// appears in a slug suffix and in the creation redirect.
pub fn tap_count_hex(t: u32) -> (r: String)
    requires
        t <= 0xFFFFFF,
    ensures
        r@ == hex_digits(t as nat, 6),
{
    let mut out = String::new();
    push_hex6(&mut out, t);
    proof {
        assert(out@ =~= hex_digits(t as nat, 6));
    }
    out
}

/// Parse a tap-count value from one to six hex digits, in either case;
/// anything else — empty, longer than six digits, or a non-hex character
/// — is rejected.
pub fn parse_tap_count(s: &str) -> (r: Option<u32>)
    ensures
        match r {
            Some(v) => 1 <= s@.len() <= 6 && crate::tag_id::all_hex_digits(s@) && v as nat
                == hex_num(s@) && v <= 0xFFFFFF,
            None => !(1 <= s@.len() <= 6 && crate::tag_id::all_hex_digits(s@)),
        },
{
    let len = s.unicode_len();
    if len == 0 || len > 6 {
        return None;
    }
    let mut v: u32 = 0;
    let mut i: usize = 0;
    while i < len
        invariant
            i <= len,
            1 <= len <= 6,
            len == s@.len(),
            forall|j: int| 0 <= j < i ==> is_hex_digit(#[trigger] s@[j]),
            v as nat == hex_num(s@.subrange(0, i as int)),
            (v as nat) < pow16(i as nat),
        decreases len - i,
    {
        let c = s.get_char(i);
        if !crate::hexchar::hex_digit(c) {
            return None;
        }
        proof {
            lemma_pow16_le(i as nat, 5);
            assert(pow16(5) == 0x100000) by {
                reveal_with_fuel(pow16, 8);
            }
            assert(s@.subrange(0, i + 1).drop_last() =~= s@.subrange(0, i as int));
            assert(s@.subrange(0, i + 1).last() == s@[i as int]);
        }
        v = v * 16 + hex_val(c);
        i += 1;
    }
    proof {
        assert(s@.subrange(0, len as int) =~= s@);
        lemma_pow16_le(len as nat, 6);
        assert(pow16(6) == 0x1000000) by {
            reveal_with_fuel(pow16, 8);
        }
    }
    Some(v)
}

/// `pow16` grows with its exponent.
proof fn lemma_pow16_le(a: nat, b: nat)
    requires
        a <= b,
    ensures
        pow16(a) <= pow16(b),
    decreases b,
{
    if a < b {
        lemma_pow16_le(a, (b - 1) as nat);
    }
}

/// Append the six-digit upper-case rendering of a 24-bit value.
fn push_hex6(out: &mut String, t: u32)
    ensures
        final(out)@ == old(out)@ + hex_digits(t as nat, 6),
{
    let n1 = t / 16;
    let n2 = n1 / 16;
    let n3 = n2 / 16;
    let n4 = n3 / 16;
    let n5 = n4 / 16;
    push_char(out, upper_digit(n5 % 16));
    push_char(out, upper_digit(n4 % 16));
    push_char(out, upper_digit(n3 % 16));
    push_char(out, upper_digit(n2 % 16));
    push_char(out, upper_digit(n1 % 16));
    push_char(out, upper_digit(t % 16));
    proof {
        reveal_with_fuel(hex_digits, 8);
        assert(out@ =~= old(out)@ + hex_digits(t as nat, 6));
    }
}

/// Build the creation-flow redirect path carrying the identifier and, when
/// present, the same six-digit rendering of the tap count as the slug
/// suffix.
pub fn build_creation_redirect(id: &Hex14, tap_count: Option<u32>) -> (r: String)
    requires
        tap_count matches Some(t) ==> t <= 0xFFFFFF,
    ensures
        r@ == creation_redirect_of(id@, tap_count),
{
    let mut out = "/tag/create?id=".to_owned();
    out.append(id.as_str());
    match tap_count {
        None => out,
        Some(t) => {
            out.append("&tap_count=");
            push_hex6(&mut out, t);
            proof {
                assert(out@ =~= creation_redirect_of(id@, tap_count));
            }
            out
        },
    }
}

} // verus!
