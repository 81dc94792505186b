use vstd::prelude::*;

verus! {

#[verifier::external_type_specification]
#[verifier::external_body]
pub struct ExRegex(regex::Regex);

/// The message of the error that `regex::Regex::new` gives for a pattern;
/// `None` where the pattern compiles.
pub uninterp spec fn regex_compile_error(pattern: Seq<char>) -> Option<Seq<char>>;

/// Whether the regex of a pattern matches anywhere in a text, as
/// `regex::Regex::is_match` decides.
pub uninterp spec fn regex_is_match(pattern: Seq<char>, haystack: Seq<char>) -> bool;

/// A regex together with the pattern it was compiled from. Only `compile`
/// and `duplicate` build one, so the regex is always that of the pattern.
pub struct CompiledRegex {
    pattern: String,
    re: regex::Regex,
}

impl CompiledRegex {
    pub closed spec fn pattern_spec(&self) -> Seq<char> {
        self.pattern@
    }

    /// Compiles a pattern with `regex::Regex::new`. The contract claims that
    /// the call succeeds exactly where the named error is absent, that the
    /// result keeps the pattern, and that the error's message is the named one.
    #[verifier::external_body]
    pub(crate) fn compile(pattern: &str) -> (r: Result<Self, String>)
        ensures
            r is Ok <==> regex_compile_error(pattern@) is None,
            r matches Ok(x) ==> x.pattern_spec() == pattern@,
            r matches Err(e) ==> regex_compile_error(pattern@) == Some(e@),
    {
        match regex::Regex::new(pattern) {
            Ok(re) => Ok(CompiledRegex { pattern: pattern.to_string(), re }),
            Err(e) => Err(e.to_string()),
        }
    }

    /// `regex::Regex::is_match` on the compiled regex: the contract claims
    /// that the answer is the named one for the pattern and the text.
    #[verifier::external_body]
    pub(crate) fn is_match(&self, text: &str) -> (r: bool)
        ensures
            r == regex_is_match(self.pattern_spec(), text@),
    {
        self.re.is_match(text)
    }

    /// A copy by `Clone` of `regex::Regex`, which keeps the pattern.
    #[verifier::external_body]
    pub(crate) fn duplicate(&self) -> (r: Self)
        ensures
            r.pattern_spec() == self.pattern_spec(),
    {
        CompiledRegex { pattern: self.pattern.clone(), re: self.re.clone() }
    }

    /// The pattern the regex was compiled from.
    pub fn as_str(&self) -> (r: &str)
        ensures
            r@ == self.pattern_spec(),
    {
        self.pattern.as_str()
    }
}

/// Whether an optional pattern selects a text: an absent one selects every
/// text.
pub open spec fn selects(pat: Option<Seq<char>>, text: Seq<char>) -> bool {
    match pat {
        None => true,
        Some(p) => regex_is_match(p, text),
    }
}

pub open spec fn opt_pattern(r: Option<CompiledRegex>) -> Option<Seq<char>> {
    match r {
        None => None,
        Some(x) => Some(x.pattern_spec()),
    }
}

pub fn opt_duplicate(r: &Option<CompiledRegex>) -> (d: Option<CompiledRegex>)
    ensures
        opt_pattern(d) == opt_pattern(*r),
{
    match r {
        None => None,
        Some(x) => Some(x.duplicate()),
    }
}

pub fn opt_selects(r: &Option<CompiledRegex>, text: &str) -> (b: bool)
    ensures
        b == selects(opt_pattern(*r), text@),
{
    match r {
        None => true,
        Some(x) => x.is_match(text),
    }
}

} // verus!
