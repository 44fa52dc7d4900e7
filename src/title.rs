//! Window titles: decoding, sanitizing and the denylist of non-task windows.

use vstd::prelude::*;
use vstd::string::*;

verus! {

/// C0 and C1 control characters (general category Cc).
pub open spec fn is_control_char(c: char) -> bool {
    (c as u32) <= 0x1f || (0x7f <= (c as u32) && (c as u32) <= 0x9f)
}

/// Bidi and format marks that are hazards when rendered: LRM, RLM, the
/// embedding/override controls U+202A..U+202E, the isolates U+2066..U+2069
/// and the byte-order mark.
pub open spec fn is_format_mark(c: char) -> bool {
    let u = c as u32;
    u == 0x200e || u == 0x200f || (0x202a <= u && u <= 0x202e) || (0x2066 <= u && u <= 0x2069)
        || u == 0xfeff
}

pub open spec fn is_kept_char(c: char) -> bool {
    !is_control_char(c) && !is_format_mark(c)
}

/// The title with every control character and format mark removed.
pub open spec fn sanitized(s: Seq<char>) -> Seq<char> {
    s.filter(|c: char| is_kept_char(c))
}

/// What `String::from_utf8_lossy` makes of a byte string.
pub uninterp spec fn utf8_lossy(b: Seq<u8>) -> Seq<char>;

/// What `str::to_lowercase` makes of a string.
pub uninterp spec fn lower_of(s: Seq<char>) -> Seq<char>;

/// Relies on `String::from_utf8_lossy`: a decoding that depends on the bytes
/// alone, and that turns no bytes into the empty string.
#[verifier::external_body]
fn decode_lossy(b: &[u8]) -> (r: String)
    ensures
        r@ == utf8_lossy(b@),
        b@.len() == 0 ==> r@.len() == 0,
{
    String::from_utf8_lossy(b).into_owned()
}

/// Relies on `str::to_lowercase`: the result depends on the characters alone.
#[verifier::external_body]
fn lowercase(s: &str) -> (r: String)
    ensures
        r@ == lower_of(s@),
{
    s.to_lowercase()
}

/// Relies on `String::push`: appends one character.
#[verifier::external_body]
pub(crate) fn push_char(s: &mut String, c: char)
    ensures
        final(s)@ == old(s)@.push(c),
{
    s.push(c)
}

pub fn is_control(c: char) -> (r: bool)
    ensures
        r == is_control_char(c),
{
    let u = c as u32;
    u <= 0x1f || (0x7f <= u && u <= 0x9f)
}

pub fn is_format(c: char) -> (r: bool)
    ensures
        r == is_format_mark(c),
{
    let u = c as u32;
    u == 0x200e || u == 0x200f || (0x202a <= u && u <= 0x202e) || (0x2066 <= u && u <= 0x2069)
        || u == 0xfeff
}

/// Strips control characters and bidi/format marks, keeping the order of the rest.
pub fn sanitize_title(s: &str) -> (r: String)
    ensures
        r@ == sanitized(s@),
{
    let n = s.unicode_len();
    let mut out = String::new();
    let mut i: usize = 0;
    while i < n
        invariant
            n == s@.len(),
            i <= n,
            out@ == sanitized(s@.subrange(0, i as int)),
        decreases n - i,
    {
        let c = s.get_char(i);
        proof {
            let pre = s@.subrange(0, i as int);
            let next = s@.subrange(0, i + 1);
            assert(next.drop_last() == pre);
            assert(next.last() == c);
            reveal_with_fuel(Seq::filter, 1);
        }
        if !is_control(c) && !is_format(c) {
            push_char(&mut out, c);
        }
        i = i + 1;
    }
    assert(s@.subrange(0, n as int) == s@);
    out
}

/// The raw title: the UTF-8 title property when it decodes to something,
/// else the legacy title property, else nothing.
pub open spec fn chosen_title(utf8: Option<Seq<u8>>, legacy: Option<Seq<u8>>) -> Seq<char> {
    let first = match utf8 {
        Some(b) => if b.len() > 0 { utf8_lossy(b) } else { Seq::empty() },
        None => Seq::empty(),
    };
    if first.len() > 0 {
        first
    } else {
        match legacy {
            Some(b) => utf8_lossy(b),
            None => Seq::empty(),
        }
    }
}

pub open spec fn opt_bytes(v: &Option<Vec<u8>>) -> Option<Seq<u8>> {
    match v {
        Some(b) => Some(b@),
        None => None,
    }
}

/// The displayable title of a window from its two title properties (`None`
/// where a fetch failed): decoded lossily, then sanitized.
pub fn title_from_properties(utf8: &Option<Vec<u8>>, legacy: &Option<Vec<u8>>) -> (r: String)
    ensures
        r@ == sanitized(chosen_title(opt_bytes(utf8), opt_bytes(legacy))),
{
    let mut title = String::new();
    if let Some(b) = utf8 {
        if b.len() > 0 {
            title = decode_lossy(b.as_slice());
        }
    }
    if title.unicode_len() == 0 {
        if let Some(b) = legacy {
            title = decode_lossy(b.as_slice());
        }
    }
    sanitize_title(title.as_str())
}

/// `pat` occurs in `s` as a contiguous run.
pub open spec fn has_infix(s: Seq<char>, pat: Seq<char>) -> bool {
    exists|i: int| 0 <= i && i + pat.len() <= s.len() && #[trigger] s.subrange(i, i + pat.len()) == pat
}

pub fn contains_infix(s: &str, pat: &str) -> (r: bool)
    ensures
        r == has_infix(s@, pat@),
{
    let n = s.unicode_len();
    let m = pat.unicode_len();
    if m > n {
        return false;
    }
    let mut i: usize = 0;
    while i <= n - m
        invariant
            n == s@.len(),
            m == pat@.len(),
            m <= n,
            i <= n - m + 1,
            forall|k: int| 0 <= k < i ==> #[trigger] s@.subrange(k, k + m) != pat@,
        decreases n - m + 1 - i,
    {
        let mut j: usize = 0;
        let mut same = true;
        while j < m
            invariant
                n == s@.len(),
                m == pat@.len(),
                i + m <= n,
                j <= m,
                same == (forall|t: int| 0 <= t < j ==> s@[i + t] == pat@[t]),
            decreases m - j,
        {
            if s.get_char(i + j) != pat.get_char(j) {
                same = false;
            }
            j = j + 1;
        }
        if same {
            assert(s@.subrange(i as int, i + m) =~= pat@);
            return true;
        }
        proof {
            let t = choose|t: int| 0 <= t < m && s@[i + t] != pat@[t];
            assert(s@.subrange(i as int, i + m)[t] != pat@[t]);
        }
        i = i + 1;
    }
    false
}

/// Titles of known non-task windows (other bars and desktop widgets), matched
/// on the lower-cased title.
pub open spec fn denylisted(lowered: Seq<char>) -> bool {
    has_infix(lowered, "conky"@) || has_infix(lowered, "tint2"@) || has_infix(lowered, "plank"@)
}

/// Whether an already lower-cased title names a non-task window.
pub fn matches_denylist(lowered: &str) -> (r: bool)
    ensures
        r == denylisted(lowered@),
{
    contains_infix(lowered, "conky") || contains_infix(lowered, "tint2") || contains_infix(
        lowered,
        "plank",
    )
}

/// Whether a title names a non-task window, compared case-insensitively.
pub fn is_denylisted(title: &str) -> (r: bool)
    ensures
        r == denylisted(lower_of(title@)),
{
    let lowered = lowercase(title);
    matches_denylist(lowered.as_str())
}

} // verus!
