//! Selection of the backend tasks that take part in CPU sampling.
use regex::Regex;
use vstd::prelude::*;
use vstd::string::*;

use crate::names::NameSet;
use crate::text::texts;

verus! {

/// The `regex` crate's compiled pattern.
#[verifier::external_type_specification]
#[verifier::external_body]
pub struct ExRegex(regex::Regex);

/// The `regex` crate's compilation error.
#[verifier::external_type_specification]
#[verifier::external_body]
pub struct ExRegexError(regex::Error);

/// What `regex::Regex::new` returns for a pattern.
pub uninterp spec fn regex_new(pattern: Seq<char>) -> Result<regex::Regex, regex::Error>;

/// Whether a regex is the outcome of compiling the pattern.
pub open spec fn compiled_from(regex: Regex, pattern: Seq<char>) -> bool {
    regex_new(pattern) == Ok::<Regex, regex::Error>(regex)
}

/// Whether the pattern, once compiled, matches anywhere in the text: what
/// `regex::Regex::is_match` returns.
pub uninterp spec fn regex_is_match(pattern: Seq<char>, text: Seq<char>) -> bool;

/// `regex::Regex::new` compiles a pattern. The outcome depends on the pattern
/// alone; which patterns compile is left to the crate.
#[verifier::external_body]
fn compile(pattern: &str) -> (r: Result<Regex, regex::Error>)
    ensures
        r == regex_new(pattern@),
{
    Regex::new(pattern)
}

/// `regex::Regex::is_match` searches the text for the pattern that the regex was
/// compiled from. The outcome depends on that pattern and on the text alone.
#[verifier::external_body]
fn is_match(regex: &Regex, text: &str) -> (r: bool)
    ensures
        forall|pattern: Seq<char>| #[trigger]
            compiled_from(*regex, pattern) ==> r == regex_is_match(pattern, text@),
{
    regex.is_match(text)
}

/// Why a VM record could not be configured.
#[derive(Debug)]
pub enum InstanceError {
    /// The task-name pattern does not compile.
    Regex(regex::Error),
}

/// A compiled task-name pattern.
#[derive(Debug)]
struct NamePattern {
    source: String,
    regex: Regex,
}

impl NamePattern {
    #[verifier::type_invariant]
    spec fn inv(&self) -> bool {
        compiled_from(self.regex, self.source@)
    }
}

/// Classifier for backend task names.
#[derive(Debug)]
pub struct ThreadNameFilter {
    pattern: Option<NamePattern>,
    ignored_names: NameSet,
}

/// The pattern as it is compiled: in a group of its own.
pub open spec fn grouped(pattern: Seq<char>) -> Seq<char> {
    "(?:"@ + pattern + ")"@
}

/// Whether a task takes part in sampling, from whether its name is ignored and
/// from the verdict of the pattern, if there is one.
pub open spec fn included(ignored: bool, verdict: Option<bool>) -> bool {
    !ignored && (verdict matches Some(matched) ==> matched)
}

/// Decide about one task name. An ignored name is out whatever the pattern
/// says; without a pattern every other name is in.
pub fn name_included(ignored: bool, verdict: Option<bool>) -> (r: bool)
    ensures
        r == included(ignored, verdict),
{
    if ignored {
        return false;
    }
    match verdict {
        Some(matched) => matched,
        None => true,
    }
}

impl ThreadNameFilter {
    /// The compiled pattern, if any.
    pub closed spec fn pattern(&self) -> Option<Seq<char>> {
        match self.pattern {
            Some(p) => Some(p.source@),
            None => None,
        }
    }

    /// The names that are ignored.
    pub closed spec fn ignored(&self) -> Set<Seq<char>> {
        self.ignored_names@
    }

    /// Whether a task of this name takes part in sampling.
    pub open spec fn accepts(&self, name: Seq<char>) -> bool {
        included(
            self.ignored().contains(name),
            match self.pattern() {
                Some(p) => Some(regex_is_match(p, name)),
                None => None,
            },
        )
    }

    /// Compile the match pattern and collect exact names to ignore. An empty
    /// pattern matches every name.
    pub fn new(pattern: &str, ignored_names: &Vec<String>) -> (r: Result<Self, InstanceError>)
        ensures
            pattern@.len() == 0 ==> (r matches Ok(filter) && filter.pattern() is None
                && filter.ignored() == texts(ignored_names@).to_set()),
            pattern@.len() > 0 ==> match regex_new(grouped(pattern@)) {
                Ok(_) => r matches Ok(filter) && filter.pattern() == Some(grouped(pattern@))
                    && filter.ignored() == texts(ignored_names@).to_set(),
                Err(fault) => r matches Err(InstanceError::Regex(said)) && said == fault,
            },
    {
        let compiled: Option<NamePattern> = if pattern.is_empty() {
            None
        } else {
            let mut source = "(?:".to_owned();
            source.append(pattern);
            source.append(")");
            match compile(source.as_str()) {
                Ok(regex) => Some(NamePattern { source, regex }),
                Err(fault) => {
                    return Err(InstanceError::Regex(fault));
                },
            }
        };
        Ok(Self { pattern: compiled, ignored_names: NameSet::from_names(ignored_names) })
    }

    /// Return whether a task name belongs in CPU sampling.
    pub fn matches(&self, task_name: &str) -> (r: bool)
        ensures
            r == self.accepts(task_name@),
    {
        if self.ignored_names.contains(task_name) {
            return name_included(true, None);
        }
        let verdict: Option<bool> = match &self.pattern {
            Some(p) => {
                proof {
                    use_type_invariant(p);
                }
                Some(is_match(&p.regex, task_name))
            },
            None => None,
        };
        name_included(false, verdict)
    }
}

impl Default for ThreadNameFilter {
    fn default() -> (r: Self)
        ensures
            r.pattern() is None,
            r.ignored() == Set::<Seq<char>>::empty(),
    {
        ThreadNameFilter { pattern: None, ignored_names: NameSet::new() }
    }
}

/// An ignored name is never sampled, whatever the pattern.
pub proof fn ignored_names_take_precedence(filter: ThreadNameFilter, name: Seq<char>)
    requires
        filter.ignored().contains(name),
    ensures
        !filter.accepts(name),
{
}

/// Without a pattern, exactly the names that are not ignored are sampled.
pub proof fn no_pattern_accepts_every_other_name(filter: ThreadNameFilter, name: Seq<char>)
    requires
        filter.pattern() is None,
    ensures
        filter.accepts(name) == !filter.ignored().contains(name),
{
}

/// A task is sampled exactly when its name is not ignored and, where there is a
/// pattern, the pattern matches it.
pub proof fn filters_accept_matching_names(filter: ThreadNameFilter, name: Seq<char>)
    ensures
        filter.accepts(name) <==> !filter.ignored().contains(name) && (filter.pattern() matches Some(
            pattern,
        ) ==> regex_is_match(pattern, name)),
{
}

/// A pattern is compiled in a group of its own, so that an alternation in it stays
/// within.
pub proof fn patterns_are_grouped(pattern: Seq<char>)
    ensures
        grouped(pattern) == seq!['(', '?', ':'] + pattern + seq![')'],
{
    reveal_strlit("(?:");
    reveal_strlit(")");
    assert("(?:"@ =~= seq!['(', '?', ':']);
    assert(")"@ =~= seq![')']);
}

/// A filter accepts exactly the names that are not listed and that its pattern, put
/// in a group, matches; without a pattern it accepts all names that are not listed.
pub proof fn filters_do_as_configured(
    pattern: &str,
    ignored_names: Vec<String>,
    filter: ThreadNameFilter,
    name: Seq<char>,
)
    requires
        call_ensures(
            ThreadNameFilter::new,
            (pattern, &ignored_names),
            Ok::<ThreadNameFilter, InstanceError>(filter),
        ),
    ensures
        texts(ignored_names@).contains(name) ==> !filter.accepts(name),
        !texts(ignored_names@).contains(name) && pattern@.len() == 0 ==> filter.accepts(name),
        !texts(ignored_names@).contains(name) && pattern@.len() > 0 ==> (filter.accepts(name)
            <==> regex_is_match(seq!['(', '?', ':'] + pattern@ + seq![')'], name)),
{
    patterns_are_grouped(pattern@);
}

} // verus!
