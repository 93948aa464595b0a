//! External knowledge-base page references.
//!
//! A `NotionPageId` holds the canonical form of a provider page or
//! database identifier: 32 hex characters rendered lower-case and
//! hyphen-grouped 8-4-4-4-12. Accepted inputs are a bare 32-hex string, a
//! hyphenated UUID-shaped string in any case, or an absolute URL on the
//! provider host whose last path segment is — or ends with — such an
//! identifier.

use vstd::prelude::*;
use vstd::string::{StrSliceExecFns, StringExecFns};

use crate::hexchar::{
    hex_digit, is_hex_digit, is_lower_hex_digit, lemma_to_lower_hex, lower_hex, to_lower_hex,
};
use crate::tag_id::all_hex_digits;
use crate::text::{push_char, str_eq};

verus! {

/// Every character of `s` is a lower-case hex digit.
pub open spec fn all_lower_hex(s: Seq<char>) -> bool {
    forall|i: int| 0 <= i < s.len() ==> is_lower_hex_digit(#[trigger] s[i])
}

/// The character-wise lower-case image of `s` (hex letters only).
pub open spec fn lower_hex_seq(s: Seq<char>) -> Seq<char> {
    Seq::new(s.len(), |i: int| to_lower_hex(s[i]))
}

/// `s` with every hyphen removed and every hex letter lower-cased.
pub open spec fn lower_strip(s: Seq<char>) -> Seq<char>
    decreases s.len(),
{
    if s.len() == 0 {
        Seq::empty()
    } else {
        let rest = lower_strip(s.drop_last());
        if s.last() == '-' {
            rest
        } else {
            rest.push(to_lower_hex(s.last()))
        }
    }
}

/// The 32-character unhyphenated identifier form, case-insensitively.
pub open spec fn is_uuid_simple(s: Seq<char>) -> bool {
    s.len() == 32 && all_hex_digits(s)
}

/// The standard hyphenated 8-4-4-4-12 identifier form, case-insensitively.
pub open spec fn is_uuid_hyphenated(s: Seq<char>) -> bool {
    &&& s.len() == 36
    &&& s[8] == '-' && s[13] == '-' && s[18] == '-' && s[23] == '-'
    &&& forall|i: int|
        0 <= i < 36 && i != 8 && i != 13 && i != 18 && i != 23 ==> is_hex_digit(#[trigger] s[i])
}

/// The five digit groups of a hyphenated form, concatenated.
pub open spec fn unhyphenate(s: Seq<char>) -> Seq<char> {
    s.subrange(0, 8) + s.subrange(9, 13) + s.subrange(14, 18) + s.subrange(19, 23) + s.subrange(
        24,
        36,
    )
}

/// The last 32 characters of `t`.
pub open spec fn tail32(t: Seq<char>) -> Seq<char> {
    t.subrange(t.len() - 32, t.len() as int)
}

/// Whether a candidate segment embeds an identifier: it is the
/// unhyphenated form, or the hyphenated form, or — once hyphens are
/// stripped — longer than 32 characters with a 32-hex-digit suffix.
pub open spec fn segment_accepts(seg: Seq<char>) -> bool {
    ||| is_uuid_simple(seg)
    ||| is_uuid_hyphenated(seg)
    ||| (lower_strip(seg).len() > 32 && all_lower_hex(tail32(lower_strip(seg))))
}

/// The raw (hyphen-free, lower-case) identifier a segment embeds;
/// meaningful when `segment_accepts` holds.
pub open spec fn extracted_raw(seg: Seq<char>) -> Seq<char> {
    if is_uuid_simple(seg) {
        lower_hex_seq(seg)
    } else if is_uuid_hyphenated(seg) {
        lower_hex_seq(unhyphenate(seg))
    } else {
        tail32(lower_strip(seg))
    }
}

/// The canonical hyphen-grouped 8-4-4-4-12 rendering of a raw identifier.
pub open spec fn hyphenate(raw: Seq<char>) -> Seq<char> {
    raw.subrange(0, 8) + seq!['-'] + raw.subrange(8, 12) + seq!['-'] + raw.subrange(12, 16)
        + seq!['-'] + raw.subrange(16, 20) + seq!['-'] + raw.subrange(20, 32)
}

/// `s` is a canonical identifier rendering: 36 characters, hyphens at the
/// group boundaries, lower-case hex digits everywhere else.
pub open spec fn canonical_form(s: Seq<char>) -> bool {
    &&& s.len() == 36
    &&& s[8] == '-' && s[13] == '-' && s[18] == '-' && s[23] == '-'
    &&& forall|i: int|
        0 <= i < 36 && i != 8 && i != 13 && i != 18 && i != 23 ==> is_lower_hex_digit(
            #[trigger] s[i],
        )
}

/// Hyphenating a 32-digit lower-case raw identifier yields a canonical
/// rendering.
pub proof fn lemma_hyphenate_canonical(raw: Seq<char>)
    requires
        raw.len() == 32,
        all_lower_hex(raw),
    ensures
        canonical_form(hyphenate(raw)),
{
    let h = hyphenate(raw);
    assert(h.len() == 36);
    assert(h[8] == '-');
    assert(h[13] == '-');
    assert(h[18] == '-');
    assert(h[23] == '-');
    assert forall|i: int|
        0 <= i < 36 && i != 8 && i != 13 && i != 18 && i != 23 implies is_lower_hex_digit(
        #[trigger] h[i],
    ) by {
        if i < 8 {
            assert(h[i] == raw[i]);
        } else if i < 13 {
            assert(h[i] == raw[i - 1]);
        } else if i < 18 {
            assert(h[i] == raw[i - 2]);
        } else if i < 23 {
            assert(h[i] == raw[i - 3]);
        } else {
            assert(h[i] == raw[i - 4]);
        }
    }
}

/// Why a string was rejected as a page reference.
#[derive(Debug)]
pub enum NotionPageIdError {
    /// The input is an absolute URL, but not on the provider host.
    InvalidFormat { input: String },
    /// The input is a provider URL with no non-empty path segment.
    MissingPageId { input: String },
    /// The candidate segment embeds no 32-hex-character identifier.
    InvalidId { input: String },
}

/// A validated provider page or database reference, stored canonically.
#[derive(Debug, Hash)]
pub struct NotionPageId(String);

/// Whether `url::Url::parse` accepts `s` as an absolute URL.
pub uninterp spec fn url_accepted(s: Seq<char>) -> bool;

/// The domain-name host of the URL `s`, absent when the host is missing
/// or is an IP address.
pub uninterp spec fn url_domain(s: Seq<char>) -> Option<Seq<char>>;

/// The last path segment of the URL `s` (possibly empty), absent for
/// URLs that cannot be a base.
pub uninterp spec fn url_final_segment(s: Seq<char>) -> Option<Seq<char>>;

/// What the URL splitter hands back for an accepted absolute URL.
pub struct UrlParts {
    /// The host, when it is a domain name.
    pub domain: Option<String>,
    /// The last path segment, possibly empty.
    pub last_segment: Option<String>,
}

/// View of an optional owned string.
pub open spec fn opt_str_view(o: Option<String>) -> Option<Seq<char>> {
    match o {
        Some(s) => Some(s@),
        None => None,
    }
}

/// Relies on url's `Url::parse`, `Url::host` and `Url::path_segments`:
/// parses an absolute URL and hands back its domain-name host (if any)
/// and its last path segment (if any); fails exactly when `Url::parse`
/// fails. All three depend on the input string alone.
#[verifier::external_body]
fn split_url(input: &str) -> (r: Option<UrlParts>)
    ensures
        r is Some <==> url_accepted(input@),
        r matches Some(p) ==> opt_str_view(p.domain) == url_domain(input@) && opt_str_view(
            p.last_segment,
        ) == url_final_segment(input@),
{
    match url::Url::parse(input) {
        Ok(u) => {
            let domain = match u.host() {
                Some(url::Host::Domain(d)) => Some(d.to_string()),
                _ => None,
            };
            let last_segment = u.path_segments().and_then(|mut it| it.next_back()).map(
                |seg: &str| seg.to_string(),
            );
            Some(UrlParts { domain, last_segment })
        },
        Err(_) => None,
    }
}

/// The provider host recognized when extracting an identifier from a URL.
pub open spec fn notion_host(s: Seq<char>) -> bool {
    url_domain(s) == Some("www.notion.so"@)
}

/// The candidate segment the input reduces to: for an accepted URL, its
/// non-empty last path segment; otherwise the whole input.
pub open spec fn effective_segment(s: Seq<char>) -> Option<Seq<char>> {
    if url_accepted(s) {
        match url_final_segment(s) {
            Some(seg) => if seg.len() > 0 {
                Some(seg)
            } else {
                None
            },
            None => None,
        }
    } else {
        Some(s)
    }
}

/// Pick the candidate segment from the URL-splitting outcome: when the
/// input parsed as a URL its host must be exactly the provider domain and
/// its last path segment must be non-empty; when it did not parse, the
/// whole input is the candidate.
pub fn candidate_segment(parts: &Option<UrlParts>, input: &str) -> (r: Result<
    String,
    NotionPageIdError,
>)
    ensures
        match r {
            Ok(seg) => match parts {
                Some(p) => {
                    &&& opt_str_view(p.domain) == Some("www.notion.so"@)
                    &&& p.last_segment matches Some(ls) && ls@ == seg@
                    &&& seg@.len() > 0
                },
                None => seg@ == input@,
            },
            Err(e) => parts matches Some(p) && match e {
                NotionPageIdError::InvalidFormat { input: s } => s@ == input@ && opt_str_view(
                    p.domain,
                ) != Some("www.notion.so"@),
                NotionPageIdError::MissingPageId { input: s } => {
                    &&& s@ == input@
                    &&& opt_str_view(p.domain) == Some("www.notion.so"@)
                    &&& match p.last_segment {
                        Some(ls) => ls@.len() == 0,
                        None => true,
                    }
                },
                NotionPageIdError::InvalidId { .. } => false,
            },
        },
{
    match parts {
        None => Ok(input.to_owned()),
        Some(p) => {
            let host_ok = match &p.domain {
                Some(d) => str_eq(d.as_str(), "www.notion.so"),
                None => false,
            };
            if !host_ok {
                return Err(NotionPageIdError::InvalidFormat { input: input.to_owned() });
            }
            match &p.last_segment {
                Some(ls) => {
                    if ls.as_str().unicode_len() > 0 {
                        Ok(ls.clone())
                    } else {
                        Err(NotionPageIdError::MissingPageId { input: input.to_owned() })
                    }
                },
                None => Err(NotionPageIdError::MissingPageId { input: input.to_owned() }),
            }
        },
    }
}

/// Whether every character of `s` is a hex digit.
fn all_hex(s: &str) -> (r: bool)
    ensures
        r == all_hex_digits(s@),
{
    let len = s.unicode_len();
    let mut i: usize = 0;
    while i < len
        invariant
            i <= len,
            len == s@.len(),
            forall|j: int| 0 <= j < i ==> is_hex_digit(#[trigger] s@[j]),
        decreases len - i,
    {
        if !hex_digit(s.get_char(i)) {
            return false;
        }
        i += 1;
    }
    true
}

/// Whether `s` has the hyphenated 8-4-4-4-12 shape.
fn hyphenated_shape(s: &str) -> (r: bool)
    ensures
        r == is_uuid_hyphenated(s@),
{
    if s.unicode_len() != 36 {
        return false;
    }
    let mut i: usize = 0;
    while i < 36
        invariant
            i <= 36,
            s@.len() == 36,
            forall|j: int|
                0 <= j < i && (j == 8 || j == 13 || j == 18 || j == 23) ==> #[trigger] s@[j] == '-',
            forall|j: int|
                0 <= j < i && j != 8 && j != 13 && j != 18 && j != 23 ==> is_hex_digit(
                    #[trigger] s@[j],
                ),
        decreases 36 - i,
    {
        let c = s.get_char(i);
        if i == 8 || i == 13 || i == 18 || i == 23 {
            if c != '-' {
                return false;
            }
        } else {
            if !hex_digit(c) {
                return false;
            }
        }
        i += 1;
    }
    true
}

/// Lower-case every character of `s` (hex letters only).
fn lower_all(s: &str) -> (r: String)
    ensures
        r@ == lower_hex_seq(s@),
{
    let len = s.unicode_len();
    let mut out = String::new();
    let mut i: usize = 0;
    while i < len
        invariant
            i <= len,
            len == s@.len(),
            out@.len() == i,
            forall|j: int| 0 <= j < i ==> out@[j] == to_lower_hex(#[trigger] s@[j]),
        decreases len - i,
    {
        push_char(&mut out, lower_hex(s.get_char(i)));
        i += 1;
    }
    proof {
        assert(out@ =~= lower_hex_seq(s@));
    }
    out
}

/// Remove every hyphen and lower-case the rest.
fn strip_lower(s: &str) -> (r: String)
    ensures
        r@ == lower_strip(s@),
{
    let len = s.unicode_len();
    let mut out = String::new();
    let mut i: usize = 0;
    while i < len
        invariant
            i <= len,
            len == s@.len(),
            out@ == lower_strip(s@.subrange(0, i as int)),
        decreases len - i,
    {
        let c = s.get_char(i);
        proof {
            assert(s@.subrange(0, i + 1).drop_last() =~= s@.subrange(0, i as int));
            assert(s@.subrange(0, i + 1).last() == s@[i as int]);
        }
        if c != '-' {
            push_char(&mut out, lower_hex(c));
        }
        i += 1;
    }
    proof {
        assert(s@.subrange(0, len as int) =~= s@);
    }
    out
}

/// Join the 8-4-4-4-12 groups of a 32-character raw identifier with
/// hyphens.
fn hyphenate_raw(raw: &str) -> (r: String)
    requires
        raw@.len() == 32,
    ensures
        r@ == hyphenate(raw@),
{
    let mut out = raw.substring_char(0, 8).to_owned();
    push_char(&mut out, '-');
    out.append(raw.substring_char(8, 12));
    push_char(&mut out, '-');
    out.append(raw.substring_char(12, 16));
    push_char(&mut out, '-');
    out.append(raw.substring_char(16, 20));
    push_char(&mut out, '-');
    out.append(raw.substring_char(20, 32));
    proof {
        assert(out@ =~= hyphenate(raw@));
    }
    out
}

/// Extract the identifier a candidate segment embeds and canonicalize it:
/// first the segment as a whole (unhyphenated or hyphenated form), then —
/// after stripping hyphens — a 32-character hex suffix of a longer
/// segment.
pub fn extract_id_from_segment(seg: &str) -> (r: Result<String, NotionPageIdError>)
    ensures
        match r {
            Ok(c) => segment_accepts(seg@) && c@ == hyphenate(extracted_raw(seg@))
                && canonical_form(c@),
            Err(e) => !segment_accepts(seg@) && (e matches NotionPageIdError::InvalidId {
                input: s,
            } && s@ == seg@),
        },
{
    let len = seg.unicode_len();
    if len == 32 && all_hex(seg) {
        let raw = lower_all(seg);
        proof {
            assert forall|i: int| 0 <= i < raw@.len() implies is_lower_hex_digit(
                #[trigger] raw@[i],
            ) by {
                lemma_to_lower_hex(seg@[i]);
            }
            lemma_hyphenate_canonical(raw@);
        }
        return Ok(hyphenate_raw(raw.as_str()));
    }
    if hyphenated_shape(seg) {
        let mut u = seg.substring_char(0, 8).to_owned();
        u.append(seg.substring_char(9, 13));
        u.append(seg.substring_char(14, 18));
        u.append(seg.substring_char(19, 23));
        u.append(seg.substring_char(24, 36));
        proof {
            assert(u@ =~= unhyphenate(seg@));
            assert forall|i: int| 0 <= i < u@.len() implies is_hex_digit(#[trigger] u@[i]) by {
                if i < 8 {
                    assert(u@[i] == seg@[i]);
                } else if i < 12 {
                    assert(u@[i] == seg@[i + 1]);
                } else if i < 16 {
                    assert(u@[i] == seg@[i + 2]);
                } else if i < 20 {
                    assert(u@[i] == seg@[i + 3]);
                } else {
                    assert(u@[i] == seg@[i + 4]);
                }
            }
        }
        let raw = lower_all(u.as_str());
        proof {
            assert forall|i: int| 0 <= i < raw@.len() implies is_lower_hex_digit(
                #[trigger] raw@[i],
            ) by {
                lemma_to_lower_hex(u@[i]);
            }
            lemma_hyphenate_canonical(raw@);
        }
        return Ok(hyphenate_raw(raw.as_str()));
    }
    let t = strip_lower(seg);
    let tl = t.as_str().unicode_len();
    if tl > 32 {
        let tail = t.as_str().substring_char(tl - 32, tl);
        if all_lower(tail) {
            proof {
                assert(tail@ =~= tail32(lower_strip(seg@)));
                lemma_hyphenate_canonical(tail@);
            }
            return Ok(hyphenate_raw(tail));
        }
        proof {
            assert(tail@ =~= tail32(lower_strip(seg@)));
        }
        return Err(NotionPageIdError::InvalidId { input: seg.to_owned() });
    }
    Err(NotionPageIdError::InvalidId { input: seg.to_owned() })
}

/// Whether every character of `s` is a lower-case hex digit.
fn all_lower(s: &str) -> (r: bool)
    ensures
        r == all_lower_hex(s@),
{
    let len = s.unicode_len();
    let mut i: usize = 0;
    while i < len
        invariant
            i <= len,
            len == s@.len(),
            forall|j: int| 0 <= j < i ==> is_lower_hex_digit(#[trigger] s@[j]),
        decreases len - i,
    {
        let c = s.get_char(i);
        let u = c as u32;
        if !((48 <= u && u <= 57) || (97 <= u && u <= 102)) {
            return false;
        }
        i += 1;
    }
    true
}

impl View for NotionPageId {
    type V = Seq<char>;

    closed spec fn view(&self) -> Seq<char> {
        self.0@
    }
}

impl NotionPageId {
    /// Every value of this type is canonical.
    #[verifier::type_invariant]
    pub open spec fn inv(&self) -> bool {
        canonical_form(self@)
    }

    /// Parse a page reference from a bare identifier or a provider URL.
    ///
    /// An input that parses as an absolute URL must be on the provider
    /// host (`InvalidFormat` otherwise) and must have a non-empty last
    /// path segment (`MissingPageId` otherwise); that segment — or, for a
    /// non-URL input, the whole input — must embed a 32-hex-character
    /// identifier (`InvalidId` otherwise), which is stored canonically.
    pub fn new(input: &str) -> (r: Result<NotionPageId, NotionPageIdError>)
        ensures
            match r {
                Ok(id) => {
                    &&& url_accepted(input@) ==> notion_host(input@)
                    &&& effective_segment(input@) matches Some(seg) && segment_accepts(seg)
                        && id@ == hyphenate(extracted_raw(seg))
                    &&& canonical_form(id@)
                },
                Err(e) => match e {
                    NotionPageIdError::InvalidFormat { input: s } => {
                        &&& s@ == input@
                        &&& url_accepted(input@)
                        &&& !notion_host(input@)
                    },
                    NotionPageIdError::MissingPageId { input: s } => {
                        &&& s@ == input@
                        &&& url_accepted(input@)
                        &&& notion_host(input@)
                        &&& effective_segment(input@) is None
                    },
                    NotionPageIdError::InvalidId { input: s } => {
                        if url_accepted(input@) {
                            &&& notion_host(input@)
                            &&& effective_segment(input@) matches Some(seg) && !segment_accepts(
                                seg,
                            ) && s@ == seg
                        } else {
                            !segment_accepts(input@) && s@ == input@
                        }
                    },
                },
            },
    {
        let parts = split_url(input);
        let seg = match candidate_segment(&parts, input) {
            Ok(seg) => seg,
            Err(e) => {
                return Err(e);
            },
        };
        match extract_id_from_segment(seg.as_str()) {
            Ok(canonical) => Ok(NotionPageId(canonical)),
            Err(e) => Err(e),
        }
    }

    /// The canonical lower-case hyphenated rendering.
    pub fn as_str(&self) -> (r: &str)
        ensures
            r@ == self@,
            canonical_form(r@),
    {
        proof {
            use_type_invariant(self);
        }
        self.0.as_str()
    }

    /// The provider's native format: the canonical rendering with the
    /// hyphens stripped, 32 lower-case hex digits.
    pub fn as_raw(&self) -> (r: String)
        ensures
            r@ == unhyphenate(self@),
            r@.len() == 32,
    {
        proof {
            use_type_invariant(self);
        }
        let c = self.0.as_str();
        let mut u = c.substring_char(0, 8).to_owned();
        u.append(c.substring_char(9, 13));
        u.append(c.substring_char(14, 18));
        u.append(c.substring_char(19, 23));
        u.append(c.substring_char(24, 36));
        proof {
            assert(u@ =~= unhyphenate(self.0@));
        }
        u
    }
}

impl Clone for NotionPageId {
    fn clone(&self) -> (r: NotionPageId)
        ensures
            r@ == self@,
    {
        proof {
            use_type_invariant(self);
        }
        NotionPageId(self.0.clone())
    }
}

impl PartialEq for NotionPageId {
    fn eq(&self, other: &NotionPageId) -> (r: bool) {
        str_eq(self.0.as_str(), other.0.as_str())
    }
}

impl vstd::std_specs::cmp::PartialEqSpecImpl for NotionPageId {
    open spec fn obeys_eq_spec() -> bool {
        true
    }

    open spec fn eq_spec(&self, other: &NotionPageId) -> bool {
        self@ == other@
    }
}

impl Eq for NotionPageId {

}

impl PartialEq<&str> for NotionPageId {
    fn eq(&self, other: &&str) -> (r: bool) {
        str_eq(self.0.as_str(), *other)
    }
}

impl vstd::std_specs::cmp::PartialEqSpecImpl<&str> for NotionPageId {
    open spec fn obeys_eq_spec() -> bool {
        true
    }

    open spec fn eq_spec(&self, other: &&str) -> bool {
        self@ == (*other)@
    }
}

impl PartialEq<String> for NotionPageId {
    fn eq(&self, other: &String) -> (r: bool) {
        str_eq(self.0.as_str(), other.as_str())
    }
}

impl vstd::std_specs::cmp::PartialEqSpecImpl<String> for NotionPageId {
    open spec fn obeys_eq_spec() -> bool {
        true
    }

    open spec fn eq_spec(&self, other: &String) -> bool {
        self@ == other@
    }
}

impl From<NotionPageId> for String {
    fn from(id: NotionPageId) -> (r: String) {
        id.0
    }
}

impl vstd::std_specs::convert::FromSpecImpl<NotionPageId> for String {
    open spec fn obeys_from_spec() -> bool {
        true
    }

    closed spec fn from_spec(id: NotionPageId) -> String {
        id.0
    }
}

impl core::str::FromStr for NotionPageId {
    type Err = NotionPageIdError;

    fn from_str(s: &str) -> Result<NotionPageId, NotionPageIdError> {
        NotionPageId::new(s)
    }
}

} // verus!
