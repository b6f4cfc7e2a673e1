use vstd::prelude::*;

verus! {

/// The compiled regular expression of the `regex` crate.
#[verifier::external_type_specification]
#[verifier::external_body]
pub struct ExRegex(regex::Regex);

/// The error that `regex::Regex::new` reports for a pattern it refuses.
#[verifier::external_type_specification]
#[verifier::external_body]
pub struct ExRegexError(regex::Error);

/// Whether `regex::Regex::new` accepts `pattern` (its syntax is valid and the
/// compiled program stays within the crate's default size limit).
pub uninterp spec fn regex_compiles(pattern: Seq<char>) -> bool;

/// What `regex::Regex::is_match` answers: whether the compiled `pattern`
/// matches anywhere in `haystack`.
pub uninterp spec fn regex_is_match(pattern: Seq<char>, haystack: Seq<char>) -> bool;

/// What `regex::Regex::captures` finds: the capture groups of the
/// leftmost-first match of `pattern` in `haystack`, by group index, each the
/// text it matched or `None` where the group took no part; `None` when there
/// is no match.
pub uninterp spec fn regex_captures(pattern: Seq<char>, haystack: Seq<char>) -> Option<
    Seq<Option<Seq<char>>>,
>;

/// What `regex::Regex::captures_iter` yields: for each successive
/// non-overlapping match of `pattern` in `haystack`, its capture groups by
/// group index.
pub uninterp spec fn regex_captures_all(pattern: Seq<char>, haystack: Seq<char>) -> Seq<
    Seq<Option<Seq<char>>>,
>;

/// What `regex::Regex::capture_names` yields: the name of each capture group
/// of `pattern` by group index, `None` for an unnamed group.
pub uninterp spec fn regex_capture_names(pattern: Seq<char>) -> Seq<Option<Seq<char>>>;

/// What `regex::Regex::replace` returns: `haystack` with the leftmost-first
/// match of `pattern` replaced by `template`, in which `$N` and `$name` stand
/// for the groups of that match.
pub uninterp spec fn regex_replace(pattern: Seq<char>, haystack: Seq<char>, template: Seq<char>) -> Seq<char>;

/// A regular expression together with the source text it was compiled from.
/// Values of this type are only made by `Pattern::new`, so the compiled
/// expression is always the one of `source`.
pub struct Pattern {
    source: String,
    re: regex::Regex,
}

/// Calls `regex::Regex::new`. The contract claims only that the outcome is a
/// function of the source text: `Ok` exactly where `regex_compiles` holds.
#[verifier::external_body]
fn compile(source: &str) -> (r: Result<regex::Regex, regex::Error>)
    ensures
        r is Ok <==> regex_compiles(source@),
{
    regex::Regex::new(source)
}

impl View for Pattern {
    type V = Seq<char>;

    /// A pattern is seen as its source text.
    closed spec fn view(&self) -> Seq<char> {
        self.source@
    }
}

impl Pattern {
    /// Compiles `source`; fails exactly where the `regex` crate refuses it.
    pub fn new(source: &str) -> (r: Result<Pattern, PatternError>)
        ensures
            r is Ok <==> regex_compiles(source@),
            r matches Ok(p) ==> p@ == source@,
    {
        match compile(source) {
            Ok(re) => Ok(Pattern { source: source.to_owned(), re }),
            Err(e) => Err(PatternError { cause: e }),
        }
    }

    /// The source text of the pattern.
    pub fn as_str(&self) -> (r: &str)
        ensures
            r@ == self@,
    {
        self.source.as_str()
    }

    /// Calls `regex::Regex::is_match` on the compiled source. The contract
    /// claims that the answer is `regex_is_match` of the source and haystack.
    #[verifier::external_body]
    pub(crate) fn is_match(&self, haystack: &str) -> (r: bool)
        ensures
            r == regex_is_match(self@, haystack@),
    {
        self.re.is_match(haystack)
    }

    /// Calls `regex::Regex::captures` and hands out each group's text. The
    /// contract claims that the result is `regex_captures` of the source and
    /// haystack, and, as the crate documents, that there is a result exactly
    /// where `is_match` holds and that group 0 (the whole match) is present in
    /// it.
    #[verifier::external_body]
    pub(crate) fn captures(&self, haystack: &str) -> (r: Option<Vec<Option<String>>>)
        ensures
            r.deep_view() == regex_captures(self@, haystack@),
            r is Some <==> regex_is_match(self@, haystack@),
            r matches Some(g) ==> g@.len() > 0 && g@[0] is Some,
    {
        self.re.captures(haystack).map(
            |c| c.iter().map(|g| g.map(|m| m.as_str().to_string())).collect(),
        )
    }

    /// Calls `regex::Regex::captures_iter` and hands out, for each match, each
    /// group's text. The contract claims that the result is
    /// `regex_captures_all` of the source and haystack, and, as the crate
    /// documents, that group 0 (the whole match) is present in each match.
    #[verifier::external_body]
    pub(crate) fn captures_all(&self, haystack: &str) -> (r: Vec<Vec<Option<String>>>)
        ensures
            r.deep_view() == regex_captures_all(self@, haystack@),
            forall|i: int| 0 <= i < r@.len() ==> r@[i]@.len() > 0 && (#[trigger] r@[i])@[0] is Some,
    {
        self.re.captures_iter(haystack).map(
            |c| c.iter().map(|g| g.map(|m| m.as_str().to_string())).collect(),
        ).collect()
    }

    /// Calls `regex::Regex::capture_names`. The contract claims that the
    /// result is `regex_capture_names` of the source.
    #[verifier::external_body]
    pub(crate) fn capture_names(&self) -> (r: Vec<Option<String>>)
        ensures
            r.deep_view() == regex_capture_names(self@),
    {
        self.re.capture_names().map(|n| n.map(|s| s.to_string())).collect()
    }

    /// Calls `regex::Regex::replace` with `template` as an expanding
    /// replacement. The contract claims that the result is `regex_replace` of
    /// the source, haystack and template.
    #[verifier::external_body]
    pub(crate) fn replace(&self, haystack: &str, template: &str) -> (r: String)
        ensures
            r@ == regex_replace(self@, haystack@, template@),
    {
        self.re.replace(haystack, template).into_owned()
    }
}

/// Why a pattern could not be compiled.
pub struct PatternError {
    pub cause: regex::Error,
}

} // verus!
