use vstd::prelude::*;

use crate::error::ScanError;

verus! {

#[verifier::external_type_specification]
#[verifier::external_body]
pub struct ExRegex(regex::Regex);

#[verifier::external_type_specification]
#[verifier::external_body]
pub struct ExRegexError(regex::Error);

/// Whether `regex::Regex::new` accepts the source text.
pub uninterp spec fn regex_valid(src: Seq<char>) -> bool;

/// Whether the regular expression compiled from `src` matches somewhere in `hay`.
pub uninterp spec fn regex_found(src: Seq<char>, hay: Seq<char>) -> bool;

/// Relies on regex::Regex::new: it succeeds exactly on the sources it accepts,
/// which depends on the source text alone.
pub assume_specification[ regex::Regex::new ](re: &str) -> (r: Result<regex::Regex, regex::Error>)
    ensures
        r is Ok <==> regex_valid(re@),
;

/// A compiled, non-empty regular expression, remembered with its source.
pub struct Pattern {
    re: regex::Regex,
    source: Ghost<Seq<char>>,
}

impl View for Pattern {
    type V = Seq<char>;

    /// The source text that the pattern was compiled from.
    closed spec fn view(&self) -> Seq<char> {
        self.source@
    }
}

/// A pattern source is usable when it is not empty and compiles; an empty
/// source carries no matching intent and is refused rather than matching all.
pub open spec fn pattern_usable(src: Seq<char>) -> bool {
    src.len() > 0 && regex_valid(src)
}

impl Pattern {
    /// Compiles `src`, refusing an empty or invalid source with `InvalidPattern`.
    pub fn new(src: &str) -> (r: Result<Pattern, ScanError>)
        ensures
            r is Ok <==> pattern_usable(src@),
            r matches Ok(p) ==> p@ == src@,
            r is Err ==> r == Err::<Pattern, ScanError>(ScanError::InvalidPattern),
    {
        if src.unicode_len() == 0 {
            return Err(ScanError::InvalidPattern);
        }
        match regex::Regex::new(src) {
            Ok(re) => Ok(Pattern { re, source: Ghost(src@) }),
            Err(_) => Err(ScanError::InvalidPattern),
        }
    }

    /// Relies on regex::Regex::is_match: true when the expression matches
    /// anywhere in `field` (a search, not a whole-field comparison).
    #[verifier::external_body]
    pub(crate) fn found_in(&self, field: &str) -> (r: bool)
        ensures
            r == regex_found(self@, field@),
    {
        self.re.is_match(field)
    }
}

} // verus!
