//! The calls this library makes into std functions that vstd leaves
//! unspecified and into the outside crates (`regex`, `uuid`, `chrono`,
//! `shellexpand`, `unicode-normalization`).  Each item here is trusted: its
//! contract is believed, not proved, and its doc comment says what that
//! contract claims.

use vstd::prelude::*;
use unicode_normalization::UnicodeNormalization;

verus! {

/// `String::push` (std): appends `c` at the end of `s`.
#[verifier::external_body]
pub(crate) fn push_char(s: &mut String, c: char)
    ensures
        final(s)@ == old(s)@.push(c),
{
    s.push(c);
}

/// What `str::to_lowercase` (std) returns for a string: the Unicode lowercase
/// mapping, which takes pages to write down.
pub uninterp spec fn lowercase(s: Seq<char>) -> Seq<char>;

/// `str::to_lowercase` (std): the claim is only that the result is the named
/// lowercase mapping of the argument, a function of the chars alone.
#[verifier::external_body]
pub(crate) fn to_lowercase(s: &str) -> (r: String)
    ensures
        r@ == lowercase(s@),
{
    s.to_lowercase()
}

/// What `unicode_normalization`'s `nfc` yields for a string: its Unicode
/// Normalization Form C (canonical decomposition followed by canonical
/// composition), which takes the Unicode tables to write down.
pub uninterp spec fn nfc(s: Seq<char>) -> Seq<char>;

/// `UnicodeNormalization::nfc` collected into a string: the result is the
/// named NFC form of the argument, a function of its chars, and, as the
/// crate documents, the string in Normalization Form C, which Unicode's
/// Annex 15 defines as a string that normalizing to that form leaves
/// unchanged.
#[verifier::external_body]
pub(crate) fn to_nfc(s: &str) -> (r: String)
    ensures
        r@ == nfc(s@),
        nfc(r@) == r@,
{
    s.nfc().collect()
}

#[verifier::external_type_specification]
#[verifier::external_body]
pub struct ExRegex(regex::Regex);

/// Whether `regex::Regex::new` accepts a pattern: it refuses invalid syntax
/// and patterns whose compiled form passes the default size limit, which
/// depends on the pattern alone.
pub uninterp spec fn regex_compiles(pattern: Seq<char>) -> bool;

/// The texts of the successive non-overlapping matches that
/// `regex::Regex::find_iter` yields for a compiled pattern on a haystack.
pub uninterp spec fn regex_find_all(pattern: Seq<char>, haystack: Seq<char>) -> Seq<Seq<char>>;

/// A compiled regular expression together with the pattern it was compiled
/// from.  Values are only made by `Pattern::compile`, so `compiled` is always
/// the regex of `source`.
pub(crate) struct Pattern {
    source: String,
    compiled: regex::Regex,
}

impl Pattern {
    /// The pattern text this regex was compiled from.
    pub(crate) closed spec fn source(&self) -> Seq<char> {
        self.source@
    }

    /// `regex::Regex::new`: succeeds exactly on the patterns named by
    /// `regex_compiles`, and the result remembers its pattern.
    #[verifier::external_body]
    pub(crate) fn compile(source: &str) -> (r: Option<Pattern>)
        ensures
            r is Some <==> regex_compiles(source@),
            r matches Some(p) ==> p.source() == source@,
    {
        match regex::Regex::new(source) {
            Ok(re) => Some(Pattern { source: source.to_string(), compiled: re }),
            Err(_) => None,
        }
    }

    /// `regex::Regex::find_iter`, each match taken as its text: the result is
    /// the named list of matches, and each match is a run of the haystack
    /// (which the crate's `Match::as_str` documents).
    #[verifier::external_body]
    pub(crate) fn find_all(&self, haystack: &str) -> (r: Vec<String>)
        ensures
            r.deep_view() == regex_find_all(self.source(), haystack@),
            forall|i: int|
                0 <= i < r.deep_view().len() ==> crate::text::has_infix(
                    haystack@,
                    #[trigger] r.deep_view()[i],
                ),
    {
        let mut out = Vec::new();
        for m in self.compiled.find_iter(haystack) {
            out.push(m.as_str().to_string());
        }
        out
    }
}

/// The text form of a UUID as `uuid::Uuid`'s `Display` writes it: 36 chars,
/// hyphens at 8, 13, 18 and 23, lowercase hexadecimal digits elsewhere.
pub open spec fn is_uuid_text(s: Seq<char>) -> bool {
    &&& s.len() == 36
    &&& forall|i: int|
        0 <= i < 36 ==> if i == 8 || i == 13 || i == 18 || i == 23 {
            #[trigger] s[i] == '-'
        } else {
            ('0' <= s[i] <= '9') || ('a' <= s[i] <= 'f')
        }
}

/// `uuid::Uuid::new_v4` followed by `to_string`: the value is random, so the
/// only claim is the shape of its text.
#[verifier::external_body]
pub(crate) fn new_uuid_text() -> (r: String)
    ensures
        is_uuid_text(r@),
{
    uuid::Uuid::new_v4().to_string()
}

/// `chrono::Utc::now().timestamp()`: the current time in seconds since the
/// Unix epoch.  It depends on the clock, so nothing is claimed of it.
#[verifier::external_body]
pub(crate) fn utc_now_timestamp() -> (r: i64) {
    chrono::Utc::now().timestamp()
}

/// The text chrono writes for the UTC date and time of a Unix timestamp in a
/// `strftime`-style format, or `None` where chrono's range ends.
pub uninterp spec fn utc_formatted(timestamp: i64, format: Seq<char>) -> Option<Seq<char>>;

/// `chrono::Utc.timestamp_opt(timestamp, 0).single()`, formatted with
/// `format`: the result is the named text of the timestamp in that format.
/// chrono reports an error for a format with an invalid specifier, on which
/// `to_string` panics, so the format is held to the date format `%Y-%m-%d`,
/// whose specifiers are all valid.
#[verifier::external_body]
pub(crate) fn utc_format(timestamp: i64, format: &str) -> (r: Option<String>)
    requires
        format@ == "%Y-%m-%d"@,
    ensures
        r is Some <==> utc_formatted(timestamp, format@) is Some,
        r matches Some(d) ==> d@ == utc_formatted(timestamp, format@)->0,
{
    match <chrono::Utc as chrono::TimeZone>::timestamp_opt(&chrono::Utc, timestamp, 0).single() {
        Some(dt) => Some(dt.format(format).to_string()),
        None => None,
    }
}

#[verifier::external_type_specification]
#[verifier::external_body]
pub struct ExInstant(std::time::Instant);

/// `std::time::Instant::now`: a reading of the monotonic clock; nothing is
/// claimed of it.
#[verifier::external_body]
pub(crate) fn instant_now() -> (r: std::time::Instant) {
    std::time::Instant::now()
}

/// `std::time::Instant::elapsed`, in whole seconds: it depends on the clock,
/// so nothing is claimed of it.
#[verifier::external_body]
pub(crate) fn whole_secs_since(start: &std::time::Instant) -> (r: u64) {
    start.elapsed().as_secs()
}

/// `shellexpand::tilde`: `input` with a leading `~` replaced by the user's
/// home directory where one is known.  It reads the environment, so nothing
/// is claimed of it.
#[verifier::external_body]
pub(crate) fn expand_tilde(input: &str) -> (r: String) {
    shellexpand::tilde(input).into_owned()
}

#[verifier::external_type_specification]
#[verifier::external_body]
pub struct ExSystemTime(std::time::SystemTime);

/// `std::time::SystemTime::now`: a reading of the system clock; nothing is
/// claimed of it.
#[verifier::external_body]
pub(crate) fn system_time_now() -> (r: std::time::SystemTime) {
    std::time::SystemTime::now()
}

/// `SystemTime::duration_since(UNIX_EPOCH)`, in whole seconds, `None` where
/// `t` is before the epoch (the call's error).  It depends on the opaque clock
/// reading, so nothing more is claimed of it.
#[verifier::external_body]
pub(crate) fn secs_since_unix_epoch(t: &std::time::SystemTime) -> (r: Option<u64>) {
    match t.duration_since(std::time::UNIX_EPOCH) {
        Ok(d) => Some(d.as_secs()),
        Err(_) => None,
    }
}

} // verus!
