use vstd::prelude::*;
use vstd::string::StringSliceAdditionalSpecFns;
use vstd::utf8::*;

verus! {

#[verifier::external_type_specification]
#[verifier::external_body]
pub struct ExRegex(regex::Regex);

#[verifier::external_type_specification]
#[verifier::external_body]
pub struct ExRegexError(regex::Error);

/// Whether the regular-expression engine compiles `pattern` with its default
/// settings. It depends on the pattern text alone.
pub uninterp spec fn regex_accepts(pattern: Seq<char>) -> bool;

/// The leftmost-first match, as byte offsets `(start, end)`, of the regular
/// expression written `pattern` in the UTF-8 text `text`; `None` where it does
/// not match. It depends on the pattern and the text alone.
pub uninterp spec fn leftmost_match(pattern: Seq<char>, text: Seq<u8>) -> Option<(int, int)>;

/// A match as a pair of mathematical offsets.
pub open spec fn positions(m: Option<(usize, usize)>) -> Option<(int, int)> {
    match m {
        Some((s, e)) => Some((s as int, e as int)),
        None => None,
    }
}

/// A compiled regular expression together with the text it was compiled from.
///
/// Both fields are private and set together by `Pattern::new` alone, so the
/// regex is always the one that `source` compiles to.
pub struct Pattern {
    regex: regex::Regex,
    source: String,
}

/// A pattern that the regular-expression engine refused.
pub struct PatternError {
    /// The refused pattern.
    pub pattern: String,
    /// The engine's description of the problem.
    pub message: String,
}

/// Relies on `regex::Regex::new`: it compiles `source` with the default
/// settings, or fails; which of the two depends on `source` alone.
#[verifier::external_body]
fn compile(source: &str) -> (r: Result<regex::Regex, regex::Error>)
    ensures
        r is Ok <==> regex_accepts(source@),
{
    regex::Regex::new(source)
}

/// Relies on `regex::Error`'s `Display` impl for a readable description.
#[verifier::external_body]
fn describe(e: &regex::Error) -> (r: String) {
    e.to_string()
}

/// Relies on `regex::Regex::find` (with `Match::start` and `Match::end`): the
/// leftmost-first match in `haystack` as byte offsets, with
/// `start <= end <= haystack.len()`, both on UTF-8 character boundaries.
/// `p.regex` is the regex compiled from `p.source` (see `Pattern`).
#[verifier::external_body]
pub(crate) fn find(p: &Pattern, haystack: &str) -> (r: Option<(usize, usize)>)
    ensures
        positions(r) == leftmost_match(p.source(), haystack.spec_bytes()),
        r matches Some((s, e)) ==> {
            &&& s <= e <= haystack.spec_bytes().len()
            &&& is_char_boundary(haystack.spec_bytes(), s as int)
            &&& is_char_boundary(haystack.spec_bytes(), e as int)
        },
{
    p.regex.find(haystack).map(|m| (m.start(), m.end()))
}

impl Pattern {
    /// The text the pattern was compiled from.
    pub closed spec fn source(&self) -> Seq<char> {
        self.source@
    }

    /// Compiles `source`; fails exactly when the engine refuses it.
    pub fn new(source: &str) -> (r: Result<Pattern, PatternError>)
        ensures
            r is Ok <==> regex_accepts(source@),
            r matches Ok(p) ==> p.source() == source@,
            r matches Err(e) ==> e.pattern@ == source@,
    {
        match compile(source) {
            Ok(regex) => Ok(Pattern { regex, source: source.to_owned() }),
            Err(err) => Err(PatternError { pattern: source.to_owned(), message: describe(&err) }),
        }
    }

    /// The text the pattern was compiled from.
    pub fn as_str(&self) -> (r: &str)
        ensures
            r@ == self.source(),
    {
        self.source.as_str()
    }
}

} // verus!
