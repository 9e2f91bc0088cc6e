//! Search patterns: case-smart regular expressions matched against bytes.
//!
//! A [`Pattern`] keeps the text it was written as next to the matcher that
//! the regular-expression engine built from it. What the engine decides is
//! not defined here: the contracts name its answers and the rest of the
//! library is proved against those names.

use grep::matcher::Matcher;
use grep::regex::RegexMatcher;
use grep::regex::RegexMatcherBuilder;
use grep::searcher::sinks::Bytes;
use grep::searcher::SearcherBuilder;
use vstd::prelude::*;

verus! {

/// The engine's compiled matcher, carried as an opaque value.
#[verifier::external_type_specification]
#[verifier::external_body]
pub struct ExRegexMatcher(RegexMatcher);

/// The engine's error for a pattern it cannot compile, carried as an opaque
/// value.
#[verifier::external_type_specification]
#[verifier::external_body]
pub struct ExRegexError(grep::regex::Error);

/// The matcher that the engine builds from `pattern` with smart case on, or
/// `None` where it rejects the pattern.
pub uninterp spec fn compiled(pattern: Seq<char>) -> Option<RegexMatcher>;

/// Whether `matcher` finds a match somewhere in `haystack`.
pub uninterp spec fn matcher_accepts(matcher: RegexMatcher, haystack: Seq<u8>) -> bool;

/// What a line-by-line search of `content` with `matcher` reports:
/// `Some(true)` where some line matches, `Some(false)` where none does, and
/// `None` where the search itself fails.
pub uninterp spec fn slice_search(matcher: RegexMatcher, content: Seq<u8>) -> Option<bool>;

/// The engine accepts `pattern`.
pub open spec fn pattern_is_valid(pattern: Seq<char>) -> bool {
    compiled(pattern) is Some
}

/// `pattern` matches somewhere in `haystack`. The empty pattern matches
/// every haystack.
pub open spec fn pattern_matches(pattern: Seq<char>, haystack: Seq<u8>) -> bool {
    pattern.len() == 0 || (compiled(pattern) matches Some(matcher) && matcher_accepts(
        matcher,
        haystack,
    ))
}

/// Some line of `content` matches `pattern`.
pub open spec fn content_matches(pattern: Seq<char>, content: Seq<u8>) -> bool {
    compiled(pattern) matches Some(matcher) && slice_search(matcher, content) == Some(true)
}

/// Calls `RegexMatcherBuilder::build` on a builder with `case_smart(true)`.
/// Trusted: the build succeeds exactly where [`compiled`] is `Some`, then
/// with that matcher, and the empty pattern always builds.
#[verifier::external_body]
fn build_matcher(pattern: &str) -> (r: Result<RegexMatcher, grep::regex::Error>)
    ensures
        r is Ok <==> compiled(pattern@) is Some,
        r matches Ok(matcher) ==> compiled(pattern@) == Some(matcher),
        pattern@.len() == 0 ==> r is Ok,
{
    RegexMatcherBuilder::new().case_smart(true).build(pattern)
}

/// Calls `Matcher::is_match` on a compiled matcher. Trusted: the answer is
/// [`matcher_accepts`], and the matcher of the empty pattern accepts every
/// haystack.
#[verifier::external_body]
fn matcher_is_match(matcher: &RegexMatcher, haystack: &[u8]) -> (r: bool)
    ensures
        r == matcher_accepts(*matcher, haystack@),
        compiled(Seq::<char>::empty()) == Some(*matcher) ==> r,
{
    matcher.is_match(haystack).unwrap_or(false)
}

/// Calls `Searcher::search_slice` on a searcher with the default
/// configuration, reporting matching lines to `sink`. Trusted: the search
/// completes exactly where [`slice_search`] is `Some`, and then the sink was
/// told of a match exactly where some line matches.
#[verifier::external_body]
fn search_slice(matcher: &RegexMatcher, content: &[u8], sink: &mut SingleMatchSink) -> (completed:
    bool)
    ensures
        completed == slice_search(*matcher, content@) is Some,
        completed ==> *final(sink) == (if slice_search(*matcher, content@) == Some(true) {
            old(sink).after_match()
        } else {
            *old(sink)
        }),
{
    let mut searcher = SearcherBuilder::new().build();
    searcher.search_slice(matcher, content, Bytes(|_, _| Ok(sink.matched()))).is_ok()
}

/// Calls `to_string` on the engine's error. Nothing is claimed of the text.
#[verifier::external_body]
fn describe(error: &grep::regex::Error) -> (message: String) {
    error.to_string()
}

/// Remembers whether a search has reported a match, and stops the search at
/// the first one.
#[derive(Debug)]
pub struct SingleMatchSink {
    has_match: bool,
}

impl View for SingleMatchSink {
    type V = bool;

    /// Whether a match was reported.
    closed spec fn view(&self) -> bool {
        self.has_match
    }
}

impl SingleMatchSink {
    /// The sink once a match was reported to it.
    pub closed spec fn after_match(self) -> SingleMatchSink {
        SingleMatchSink { has_match: true }
    }

    /// A sink that has seen no match.
    pub fn new() -> (sink: SingleMatchSink)
        ensures
            !sink@,
    {
        SingleMatchSink { has_match: false }
    }

    /// Whether a match was reported.
    pub fn has_match(&self) -> (found: bool)
        ensures
            found == self@,
    {
        self.has_match
    }

    /// Records a match. Returns whether the search should go on: never, one
    /// match settles the question.
    pub fn matched(&mut self) -> (keep_searching: bool)
        ensures
            *final(self) == old(self).after_match(),
            final(self)@,
            !keep_searching,
    {
        self.has_match = true;
        false
    }
}

/// A search text that the engine rejected. Its view is the description that
/// the engine gave of the fault.
#[derive(Debug)]
pub struct PatternError {
    message: String,
}

impl View for PatternError {
    type V = Seq<char>;

    closed spec fn view(&self) -> Seq<char> {
        self.message@
    }
}

impl PatternError {
    /// The engine's description of what is wrong with the pattern.
    pub fn message(&self) -> (text: &str)
        ensures
            text@ == self@,
    {
        self.message.as_str()
    }
}

/// A compiled search pattern. Its view is the text it was compiled from.
pub struct Pattern {
    text: String,
    matcher: RegexMatcher,
}

impl View for Pattern {
    type V = Seq<char>;

    closed spec fn view(&self) -> Seq<char> {
        self.text@
    }
}

impl Pattern {
    #[verifier::type_invariant]
    spec fn holds_own_matcher(self) -> bool {
        compiled(self.text@) == Some(self.matcher)
    }

    /// Compiles `text` as a case-smart regular expression: letters match in
    /// either case unless the pattern holds an uppercase letter. Fails
    /// exactly on the texts the engine rejects.
    pub fn new(text: &str) -> (r: Result<Pattern, PatternError>)
        ensures
            r is Ok <==> pattern_is_valid(text@),
            r matches Ok(pattern) ==> pattern@ == text@,
            text@.len() == 0 ==> r is Ok,
    {
        match build_matcher(text) {
            Ok(matcher) => Ok(Pattern { text: text.to_owned(), matcher }),
            Err(error) => Err(PatternError { message: describe(&error) }),
        }
    }

    /// The text this pattern was compiled from.
    pub fn text(&self) -> (text: &str)
        ensures
            text@ == self@,
    {
        self.text.as_str()
    }

    /// Whether the pattern matches somewhere in `haystack`.
    pub fn is_match(&self, haystack: &[u8]) -> (r: bool)
        ensures
            pattern_is_valid(self@),
            r == pattern_matches(self@, haystack@),
    {
        proof {
            use_type_invariant(self);
            if self.text@.len() == 0 {
                assert(self.text@ =~= Seq::<char>::empty());
            }
        }
        matcher_is_match(&self.matcher, haystack)
    }

    /// Whether some line of `content` matches the pattern. The search stops
    /// at the first matching line.
    pub fn matches_content(&self, content: &[u8]) -> (r: bool)
        ensures
            pattern_is_valid(self@),
            r == content_matches(self@, content@),
    {
        proof {
            use_type_invariant(self);
        }
        let mut sink = SingleMatchSink::new();
        let completed = search_slice(&self.matcher, content, &mut sink);
        completed && sink.has_match()
    }
}

} // verus!
