//! The regular-expression rewrite rule: a compiled pattern and a replacement
//! template whose placeholders are resolved per request.
//!
//! Patterns are compiled and applied by the `regex` crate. What it makes of a
//! pattern is named by [`regex_report`] and [`regex_replaced`].
use crate::config::ConfigMap;
use crate::filters::templates::BuildError;
use crate::template::{
    output_of, render, rendered, strfmt_output, template_of, well_formed, Piece, TemplateError,
};
use vstd::prelude::*;

verus! {

/// `regex::Regex`, a compiled expression. Opaque: it is carried from
/// `Regex::new` to `Regex::replace_all`.
#[verifier::external_type_specification]
#[verifier::external_body]
pub struct ExRegex(::regex::Regex);

/// `regex::Error`, the report of a pattern that does not compile. Opaque.
#[verifier::external_type_specification]
#[verifier::external_body]
pub struct ExRegexError(::regex::Error);

/// What `Regex::new` reports of a pattern: `None` where it accepts the
/// pattern, the text of its error where it refuses it.
pub uninterp spec fn regex_report(pattern: Seq<char>) -> Option<Seq<char>>;

/// The text of a compile error, as its `Display` writes it.
pub uninterp spec fn regex_error_text(error: ::regex::Error) -> Seq<char>;

/// Whether the pattern compiles.
pub open spec fn regex_valid(pattern: Seq<char>) -> bool {
    regex_report(pattern) is None
}

/// The text of the report on a pattern that does not compile.
pub open spec fn report_text(pattern: Seq<char>) -> Seq<char> {
    match regex_report(pattern) {
        Some(text) => text,
        None => Seq::empty(),
    }
}

/// The pattern that a compiled expression stands for.
pub uninterp spec fn regex_pattern(regex: ::regex::Regex) -> Seq<char>;

/// What `Regex::replace_all` gives for the expression compiled from
/// `pattern`: `haystack` with every non-overlapping match replaced by `rep`,
/// in which `$name` and `${name}` stand for capture groups.
pub uninterp spec fn regex_replaced(pattern: Seq<char>, haystack: Seq<char>, rep: Seq<char>) -> Seq<char>;

/// Calls `Regex::new`.
///
/// Trusted: it succeeds on the patterns of which [`regex_report`] reports
/// nothing, the expression it returns stands for the pattern it was given,
/// and the error it returns has the text that [`regex_report`] names.
#[verifier::external_body]
fn compile(pattern: &str) -> (r: Result<::regex::Regex, ::regex::Error>)
    ensures
        r is Ok <==> regex_report(pattern@) is None,
        r matches Ok(regex) ==> regex_pattern(regex) == pattern@,
        r matches Err(error) ==> regex_report(pattern@) == Some(regex_error_text(error)),
{
    ::regex::Regex::new(pattern)
}

/// Calls `Regex::replace_all`.
///
/// Trusted: the result is the one that [`regex_replaced`] names for the
/// expression's pattern.
#[verifier::external_body]
fn replace_all(regex: &::regex::Regex, haystack: &str, rep: &str) -> (r: String)
    ensures
        r@ == regex_replaced(regex_pattern(*regex), haystack@, rep@),
{
    regex.replace_all(haystack, rep).into_owned()
}

/// The text of a compile error, through its `Display`.
///
/// Trusted: the text is the one that [`regex_error_text`] names.
#[verifier::external_body]
fn describe(error: &::regex::Error) -> (r: String)
    ensures
        r@ == regex_error_text(*error),
{
    error.to_string()
}

/// The description of a regular-expression rewrite rule.
pub struct ResponseFilterBuilder<'a> {
    /// The rule set that the rule belongs to.
    pub name: &'a str,
    /// The pattern.
    pub re: &'a str,
    /// The replacement template.
    pub rep: &'a str,
}

/// A regular-expression rewrite rule, ready to apply.
pub struct ResponseFilter {
    regex: ::regex::Regex,
    rep: &'static str,
}

/// What a rule with the given pattern and replacement template makes of a
/// body: every match replaced by the rendered template, or the body
/// unchanged where the template cannot be rendered.
pub open spec fn rule_outcome(
    pattern: Seq<char>,
    template: Seq<char>,
    params: Map<Seq<char>, Seq<char>>,
    body: Seq<char>,
) -> Seq<char> {
    replaced_with(pattern, strfmt_output(template, params), body)
}

/// What a rule makes of a body once its template has been rendered, or has
/// failed to render.
pub open spec fn replaced_with(
    pattern: Seq<char>,
    replacement: Option<Seq<char>>,
    body: Seq<char>,
) -> Seq<char> {
    match replacement {
        Some(rep) => regex_replaced(pattern, body, rep),
        None => body,
    }
}

impl ResponseFilter {
    /// The pattern of the rule.
    pub closed spec fn pattern(&self) -> Seq<char> {
        regex_pattern(self.regex)
    }

    /// The replacement template of the rule.
    pub closed spec fn template(&self) -> Seq<char> {
        self.rep@
    }

    /// Applies the rule with an already rendered replacement. A failed
    /// rendering leaves the body as it is.
    pub fn apply(&self, replacement: Result<String, TemplateError>, body: String) -> (out: String)
        ensures
            out@ == replaced_with(self.pattern(), output_of(replacement), body@),
            replacement is Err ==> out == body,
    {
        match replacement {
            Ok(rep) => replace_all(&self.regex, body.as_str(), rep.as_str()),
            Err(_) => body,
        }
    }
}

impl crate::filters::templates::ResponseFilterBuilder for ResponseFilterBuilder<'static> {
    type FILTER = ResponseFilter;

    open spec fn buildable(&self) -> bool {
        regex_valid(self.re@)
    }

    open spec fn outcome(&self, params: Map<Seq<char>, Seq<char>>, body: Seq<char>) -> Seq<char> {
        rule_outcome(self.re@, self.rep@, params, body)
    }

    open spec fn failure(&self) -> (Seq<char>, Seq<char>) {
        (self.name@, report_text(self.re@))
    }

    fn try_build(self) -> (r: Result<ResponseFilter, BuildError>)
        ensures
            r matches Ok(filter) ==> filter.pattern() == self.re@ && filter.template() == self.rep@,
    {
        match compile(self.re) {
            Ok(regex) => Ok(ResponseFilter { regex, rep: self.rep }),
            Err(e) => Err(BuildError { name: self.name.to_owned(), cause: describe(&e) }),
        }
    }
}

impl crate::filters::templates::ResponseFilter for ResponseFilter {
    open spec fn filtered(&self, params: Map<Seq<char>, Seq<char>>, body: Seq<char>) -> Seq<char> {
        rule_outcome(self.pattern(), self.template(), params, body)
    }

    /// Renders the replacement template against the parameters and replaces
    /// every match of the pattern. Where the template is written as plain
    /// pieces, the replacement is the pieces' text; where one of them names a
    /// parameter that is missing, the body comes back unchanged.
    fn filter(&self, config: &ConfigMap, body: String) -> (out: String)
        ensures
            forall|pieces: Seq<Piece>|
                well_formed(pieces) && #[trigger] template_of(pieces) == self.template() ==> out@
                    == replaced_with(self.pattern(), rendered(pieces, config@), body@),
            forall|pieces: Seq<Piece>|
                well_formed(pieces) && #[trigger] template_of(pieces) == self.template()
                    && rendered(pieces, config@) is None ==> out == body,
    {
        let replacement = render(self.rep, config);
        self.apply(replacement, body)
    }
}

} // verus!
