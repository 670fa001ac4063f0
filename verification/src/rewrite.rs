//! Path rewriting and redirection rules in the style of Apache's
//! `RewriteRule`/`RewriteCond`.
//!
//! Rules are tried in order; the first rule whose conditions all hold and
//! whose pattern matches the request path decides the outcome (Apache's
//! `[L]` is always implied). A rule or condition whose regular expression
//! does not compile never matches. Only the `HTTP_HOST`, `REQUEST_METHOD`
//! and `QUERY_STRING` variables can be tested; any other variable makes
//! its condition fail.
//!
//! Regular expressions are compiled and run by the `regex` crate; what a
//! pattern matches is named by [`regex_is_match`] and what a substitution
//! expands to by [`regex_expansion`].

use vstd::prelude::*;
use crate::text::str_eq;

verus! {

// ---------------------------------------------------------------------------
// The `regex` crate
// ---------------------------------------------------------------------------

#[verifier::external_type_specification]
#[verifier::external_body]
pub struct ExRegex(regex::Regex);

/// Whether `regex::Regex::new` accepts `pattern`.
pub uninterp spec fn regex_compiles(pattern: Seq<char>) -> bool;

/// Whether the compiled `pattern` matches somewhere in `text`
/// (`regex::Regex::is_match`).
pub uninterp spec fn regex_is_match(pattern: Seq<char>, text: Seq<char>) -> bool;

/// The expansion of `replacement` (with `$1`, `${name}` references) against
/// the captures of the leftmost-first match of `pattern` in `text`
/// (`regex::Regex::captures` followed by `regex::Captures::expand`).
pub uninterp spec fn regex_expansion(
    pattern: Seq<char>,
    text: Seq<char>,
    replacement: Seq<char>,
) -> Seq<char>;

/// A regular expression together with the pattern text it was compiled
/// from. Values are only made by [`compile_regex`], so `re` is always the
/// compilation of `source`.
pub struct CompiledRegex {
    source: String,
    re: regex::Regex,
}

impl CompiledRegex {
    /// The pattern text this expression was compiled from.
    pub closed spec fn source(&self) -> Seq<char> {
        self.source@
    }
}

/// Compiles `pattern` with `regex::Regex::new`. The contract claims that
/// the result is present exactly when the crate accepts the pattern, and
/// that it remembers the pattern text.
#[verifier::external_body]
fn compile_regex(pattern: &str) -> (r: Option<CompiledRegex>)
    ensures
        r is Some <==> regex_compiles(pattern@),
        r matches Some(c) ==> c.source() == pattern@,
{
    match regex::Regex::new(pattern) {
        Ok(re) => Some(CompiledRegex { source: pattern.to_string(), re }),
        Err(_) => None,
    }
}

/// `regex::Regex::is_match`: the contract claims the result is the named
/// match relation of the expression's pattern and `text`.
#[verifier::external_body]
fn regex_matches(re: &CompiledRegex, text: &str) -> (b: bool)
    ensures
        b == regex_is_match(re.source(), text@),
{
    re.re.is_match(text)
}

/// `regex::Regex::captures` followed by `regex::Captures::expand` into a
/// fresh string. The contract claims: no result exactly when the
/// expression does not match `text` (the crate documents `captures` as
/// returning `None` exactly when there is no match), and otherwise the
/// named expansion.
#[verifier::external_body]
fn regex_expand(re: &CompiledRegex, text: &str, replacement: &str) -> (r: Option<String>)
    ensures
        r is Some <==> regex_is_match(re.source(), text@),
        r matches Some(s) ==> s@ == regex_expansion(re.source(), text@, replacement@),
{
    match re.re.captures(text) {
        Some(caps) => {
            let mut out = String::new();
            caps.expand(replacement, &mut out);
            Some(out)
        },
        None => None,
    }
}

// ---------------------------------------------------------------------------
// Types
// ---------------------------------------------------------------------------

/// A `RewriteCond`: `pattern` must match the value of `variable`.
#[derive(Debug, Clone, PartialEq, Eq)]
pub struct RewriteCondition {
    /// `"HTTP_HOST"`, `"REQUEST_METHOD"` or `"QUERY_STRING"`.
    pub variable: String,
    /// Regular expression tested against the variable's value.
    pub pattern: String,
}

/// One rewrite or redirect rule.
#[derive(Debug, Clone, PartialEq, Eq)]
pub struct RewriteRule {
    /// Regular expression tested against the request path.
    pub pattern: String,
    /// Target, which may refer to capture groups (`$1`, ...).
    pub substitution: String,
    /// `true`: external redirect; `false`: internal rewrite.
    pub redirect: bool,
    /// Conditions that must all hold (empty: none).
    pub conditions: Vec<RewriteCondition>,
}

/// The request facts that conditions can test.
#[derive(Debug, Clone, Copy, Default)]
pub struct RewriteContext<'a> {
    pub http_host: Option<&'a str>,
    pub request_method: Option<&'a str>,
    pub query_string: Option<&'a str>,
}

/// What applying a list of rules to a path gives.
#[derive(Debug, Clone, PartialEq, Eq)]
pub enum RewriteOutcome {
    /// No rule matched.
    Unchanged,
    /// Internal rewrite to this path.
    Rewritten(String),
    /// External redirect to this URL.
    Redirect(String),
}

/// Model of a condition.
pub struct CondView {
    pub variable: Seq<char>,
    pub pattern: Seq<char>,
}

/// Model of a rule.
pub struct RuleView {
    pub pattern: Seq<char>,
    pub substitution: Seq<char>,
    pub redirect: bool,
    pub conditions: Seq<CondView>,
}

/// Model of a context.
pub struct ContextView {
    pub http_host: Option<Seq<char>>,
    pub request_method: Option<Seq<char>>,
    pub query_string: Option<Seq<char>>,
}

/// Model of an outcome.
pub enum OutcomeView {
    Unchanged,
    Rewritten(Seq<char>),
    Redirect(Seq<char>),
}

impl View for RewriteCondition {
    type V = CondView;

    open spec fn view(&self) -> CondView {
        CondView { variable: self.variable@, pattern: self.pattern@ }
    }
}

impl View for RewriteRule {
    type V = RuleView;

    open spec fn view(&self) -> RuleView {
        RuleView {
            pattern: self.pattern@,
            substitution: self.substitution@,
            redirect: self.redirect,
            conditions: self.conditions@.map_values(|c: RewriteCondition| c@),
        }
    }
}

impl RewriteCondition {
    /// A field-by-field copy.
    pub fn duplicate(&self) -> (r: Self)
        ensures
            r@ == self@,
    {
        RewriteCondition { variable: self.variable.clone(), pattern: self.pattern.clone() }
    }
}

impl RewriteRule {
    /// A field-by-field copy.
    pub fn duplicate(&self) -> (r: Self)
        ensures
            r@ == self@,
    {
        let mut conditions: Vec<RewriteCondition> = Vec::new();
        let mut i: usize = 0;
        while i < self.conditions.len()
            invariant
                i <= self.conditions@.len(),
                conditions@.map_values(|c: RewriteCondition| c@) == self.conditions@.map_values(
                    |c: RewriteCondition| c@,
                ).take(i as int),
            decreases self.conditions@.len() - i,
        {
            let ghost before = conditions@;
            conditions.push(self.conditions[i].duplicate());
            assert(conditions@.map_values(|c: RewriteCondition| c@) =~= before.map_values(
                |c: RewriteCondition| c@,
            ).push(self.conditions@[i as int]@));
            i += 1;
        }
        assert(self.conditions@.map_values(|c: RewriteCondition| c@).take(i as int) =~= self.conditions@.map_values(
            |c: RewriteCondition| c@,
        ));
        RewriteRule {
            pattern: self.pattern.clone(),
            substitution: self.substitution.clone(),
            redirect: self.redirect,
            conditions,
        }
    }
}

/// Model of an optional borrowed string.
pub open spec fn opt_str_view(o: Option<&str>) -> Option<Seq<char>> {
    match o {
        Some(s) => Some(s@),
        None => None,
    }
}

impl<'a> View for RewriteContext<'a> {
    type V = ContextView;

    open spec fn view(&self) -> ContextView {
        ContextView {
            http_host: opt_str_view(self.http_host),
            request_method: opt_str_view(self.request_method),
            query_string: opt_str_view(self.query_string),
        }
    }
}

impl View for RewriteOutcome {
    type V = OutcomeView;

    open spec fn view(&self) -> OutcomeView {
        match self {
            RewriteOutcome::Unchanged => OutcomeView::Unchanged,
            RewriteOutcome::Rewritten(s) => OutcomeView::Rewritten(s@),
            RewriteOutcome::Redirect(s) => OutcomeView::Redirect(s@),
        }
    }
}

/// The context in which no variable has a value.
pub open spec fn empty_context() -> ContextView {
    ContextView { http_host: None, request_method: None, query_string: None }
}

// ---------------------------------------------------------------------------
// Specification
// ---------------------------------------------------------------------------

/// The value of a condition variable in a context.
pub open spec fn resolve(ctx: ContextView, variable: Seq<char>) -> Option<Seq<char>> {
    if variable == "HTTP_HOST"@ {
        ctx.http_host
    } else if variable == "REQUEST_METHOD"@ {
        ctx.request_method
    } else if variable == "QUERY_STRING"@ {
        ctx.query_string
    } else {
        None
    }
}

/// Whether one condition holds.
pub open spec fn condition_holds(cond: CondView, ctx: ContextView) -> bool {
    match resolve(ctx, cond.variable) {
        Some(value) => regex_compiles(cond.pattern) && regex_is_match(cond.pattern, value),
        None => false,
    }
}

/// Whether all conditions hold.
pub open spec fn conditions_hold(conds: Seq<CondView>, ctx: ContextView) -> bool {
    forall|i: int| 0 <= i < conds.len() ==> #[trigger] condition_holds(conds[i], ctx)
}

/// Whether a rule applies to `path`.
pub open spec fn rule_fires(rule: RuleView, path: Seq<char>, ctx: ContextView) -> bool {
    &&& conditions_hold(rule.conditions, ctx)
    &&& regex_compiles(rule.pattern)
    &&& regex_is_match(rule.pattern, path)
}

/// What a firing rule produces.
pub open spec fn rule_result(rule: RuleView, path: Seq<char>) -> OutcomeView {
    let target = regex_expansion(rule.pattern, path, rule.substitution);
    if rule.redirect {
        OutcomeView::Redirect(target)
    } else {
        OutcomeView::Rewritten(target)
    }
}

/// The outcome of applying `rules` in order: the result of the first rule
/// that fires, or `Unchanged`.
pub open spec fn apply_spec(rules: Seq<RuleView>, path: Seq<char>, ctx: ContextView) -> OutcomeView
    decreases rules.len(),
{
    if rules.len() == 0 {
        OutcomeView::Unchanged
    } else if rule_fires(rules[0], path, ctx) {
        rule_result(rules[0], path)
    } else {
        apply_spec(rules.drop_first(), path, ctx)
    }
}

/// The models of a slice of rules.
pub open spec fn rules_view(rules: Seq<RewriteRule>) -> Seq<RuleView> {
    rules.map_values(|r: RewriteRule| r@)
}

// ---------------------------------------------------------------------------
// Laws
// ---------------------------------------------------------------------------

/// Applying rules from position `i` on, after none of `rules[..i]` fired,
/// gives the same as applying all of them.
proof fn lemma_apply_skip(rules: Seq<RuleView>, path: Seq<char>, ctx: ContextView, i: int)
    requires
        0 <= i <= rules.len(),
        forall|k: int| 0 <= k < i ==> !rule_fires(#[trigger] rules[k], path, ctx),
    ensures
        apply_spec(rules, path, ctx) == apply_spec(rules.skip(i), path, ctx),
    decreases i,
{
    if i > 0 {
        lemma_apply_skip(rules.drop_first(), path, ctx, i - 1);
        assert(rules.drop_first().skip(i - 1) =~= rules.skip(i));
    } else {
        assert(rules.skip(0) =~= rules);
    }
}

/// With no request context, a rule that carries conditions never fires:
/// applying the rules gives the same as applying only the unconditional
/// ones.
pub proof fn law_conditional_rules_need_context(rules: Seq<RuleView>, path: Seq<char>)
    ensures
        apply_spec(rules, path, empty_context()) == apply_spec(
            rules.filter(|r: RuleView| r.conditions.len() == 0),
            path,
            empty_context(),
        ),
    decreases rules.len(),
{
    let pred = |r: RuleView| r.conditions.len() == 0;
    if rules.len() > 0 {
        let rest = rules.drop_first();
        law_conditional_rules_need_context(rest, path);
        assert(rules =~= seq![rules[0]] + rest);
        Seq::filter_distributes_over_add(seq![rules[0]], rest, pred);
        let head = seq![rules[0]];
        reveal_with_fuel(Seq::filter, 2);
        assert(head.drop_last() =~= Seq::<RuleView>::empty());
        assert(Seq::<RuleView>::empty().filter(pred) =~= Seq::<RuleView>::empty());
        let fh = head.filter(pred);
        let f = rules.filter(pred);
        assert(f == fh + rest.filter(pred));
        if rules[0].conditions.len() > 0 {
            assert(fh =~= Seq::<RuleView>::empty());
            assert(f =~= rest.filter(pred));
            assert(!condition_holds(rules[0].conditions[0], empty_context()));
            assert(!rule_fires(rules[0], path, empty_context()));
        } else {
            assert(fh =~= seq![rules[0]]);
            assert(f.len() > 0 && f[0] == rules[0]);
            assert(f.drop_first() =~= rest.filter(pred));
        }
    } else {
        reveal(Seq::filter);
        assert(rules.filter(pred) =~= Seq::<RuleView>::empty());
    }
}

/// Applying rules gives the result of the first rule that fires, and
/// `Unchanged` when none fires.
pub proof fn law_apply_is_first_firing_rule(rules: Seq<RuleView>, path: Seq<char>, ctx: ContextView)
    ensures
        (forall|k: int| 0 <= k < rules.len() ==> !rule_fires(#[trigger] rules[k], path, ctx))
            ==> apply_spec(rules, path, ctx) == OutcomeView::Unchanged,
        forall|i: int|
            0 <= i < rules.len() && rule_fires(#[trigger] rules[i], path, ctx) && (forall|k: int|
                0 <= k < i ==> !rule_fires(#[trigger] rules[k], path, ctx)) ==> apply_spec(rules, path, ctx)
                == rule_result(rules[i], path),
{
    if forall|k: int| 0 <= k < rules.len() ==> !rule_fires(#[trigger] rules[k], path, ctx) {
        lemma_apply_skip(rules, path, ctx, rules.len() as int);
        assert(rules.skip(rules.len() as int) =~= Seq::<RuleView>::empty());
    }
    assert forall|i: int|
        0 <= i < rules.len() && rule_fires(#[trigger] rules[i], path, ctx) && (forall|k: int|
            0 <= k < i ==> !rule_fires(#[trigger] rules[k], path, ctx)) implies apply_spec(rules, path, ctx)
        == rule_result(rules[i], path) by {
        lemma_apply_skip(rules, path, ctx, i);
        assert(rules.skip(i)[0] == rules[i]);
    }
}

/// Without a request context, applying rules gives the result of the
/// first rule without conditions whose pattern compiles and matches the
/// path, and `Unchanged` when there is none.
pub proof fn law_apply_without_context(rules: Seq<RuleView>, path: Seq<char>)
    ensures
        ({
            let u = rules.filter(|r: RuleView| r.conditions.len() == 0);
            &&& (forall|k: int| 0 <= k < u.len() ==> !rule_fires(#[trigger] u[k], path, empty_context()))
                ==> apply_spec(rules, path, empty_context()) == OutcomeView::Unchanged
            &&& forall|i: int|
                0 <= i < u.len() && rule_fires(#[trigger] u[i], path, empty_context()) && (forall|k: int|
                    0 <= k < i ==> !rule_fires(#[trigger] u[k], path, empty_context())) ==> apply_spec(
                    rules,
                    path,
                    empty_context(),
                ) == rule_result(u[i], path)
        }),
        forall|r: RuleView| r.conditions.len() == 0 ==> (rule_fires(r, path, empty_context()) <==> (
        regex_compiles(r.pattern) && regex_is_match(r.pattern, path))),
{
    law_conditional_rules_need_context(rules, path);
    law_apply_is_first_firing_rule(rules.filter(|r: RuleView| r.conditions.len() == 0), path, empty_context());
}

/// Of several rules that would fire, the first decides the outcome:
/// putting rules after a rule that fires does not change the result.
pub proof fn law_first_match_wins(
    rules: Seq<RuleView>,
    more: Seq<RuleView>,
    path: Seq<char>,
    ctx: ContextView,
)
    requires
        exists|i: int| 0 <= i < rules.len() && rule_fires(rules[i], path, ctx),
    ensures
        apply_spec(rules + more, path, ctx) == apply_spec(rules, path, ctx),
    decreases rules.len(),
{
    if !rule_fires(rules[0], path, ctx) {
        let i = choose|i: int| 0 <= i < rules.len() && rule_fires(rules[i], path, ctx);
        assert(rules.drop_first()[i - 1] == rules[i]);
        law_first_match_wins(rules.drop_first(), more, path, ctx);
        assert((rules + more).drop_first() =~= rules.drop_first() + more);
    }
}

// ---------------------------------------------------------------------------
// Implementation
// ---------------------------------------------------------------------------

impl<'a> RewriteContext<'a> {
    /// The value of `variable` in this context (`None` for variables that
    /// cannot be tested).
    fn resolve_variable(&self, variable: &str) -> (r: Option<&'a str>)
        ensures
            opt_str_view(r) == resolve(self@, variable@),
    {
        if str_eq(variable, "HTTP_HOST") {
            self.http_host
        } else if str_eq(variable, "REQUEST_METHOD") {
            self.request_method
        } else if str_eq(variable, "QUERY_STRING") {
            self.query_string
        } else {
            None
        }
    }
}

/// Whether every condition holds in `ctx`.
fn conditions_match(conditions: &Vec<RewriteCondition>, ctx: &RewriteContext) -> (b: bool)
    ensures
        b == conditions_hold(conditions@.map_values(|c: RewriteCondition| c@), ctx@),
{
    let ghost conds = conditions@.map_values(|c: RewriteCondition| c@);
    let mut i: usize = 0;
    while i < conditions.len()
        invariant
            i <= conditions.len(),
            conds == conditions@.map_values(|c: RewriteCondition| c@),
            forall|k: int| 0 <= k < i ==> #[trigger] condition_holds(conds[k], ctx@),
        decreases conditions.len() - i,
    {
        let cond = &conditions[i];
        let holds = match ctx.resolve_variable(cond.variable.as_str()) {
            Some(value) => match compile_regex(cond.pattern.as_str()) {
                Some(re) => regex_matches(&re, value),
                None => false,
            },
            None => false,
        };
        assert(conds[i as int] == cond@);
        if !holds {
            assert(!condition_holds(conds[i as int], ctx@));
            return false;
        }
        i += 1;
    }
    true
}

/// Applies `rules` to `path` with the request facts in `ctx`: the result of
/// the first rule whose conditions hold and whose pattern matches, or
/// `Unchanged`.
pub fn apply_with_context(path: &str, rules: &[RewriteRule], ctx: &RewriteContext) -> (r:
    RewriteOutcome)
    ensures
        r@ == apply_spec(rules_view(rules@), path@, ctx@),
{
    let ghost rv = rules_view(rules@);
    let mut i: usize = 0;
    while i < rules.len()
        invariant
            i <= rules.len(),
            rv == rules_view(rules@),
            forall|k: int| 0 <= k < i ==> !rule_fires(#[trigger] rv[k], path@, ctx@),
        decreases rules.len() - i,
    {
        let rule = &rules[i];
        assert(rv[i as int] == rule@);
        if conditions_match(&rule.conditions, ctx) {
            if let Some(re) = compile_regex(rule.pattern.as_str()) {
                if let Some(target) = regex_expand(&re, path, rule.substitution.as_str()) {
                    proof {
                        lemma_apply_skip(rv, path@, ctx@, i as int);
                        assert(rv.skip(i as int)[0] == rv[i as int]);
                    }
                    return if rule.redirect {
                        RewriteOutcome::Redirect(target)
                    } else {
                        RewriteOutcome::Rewritten(target)
                    };
                }
            }
        }
        i += 1;
    }
    proof {
        lemma_apply_skip(rv, path@, ctx@, i as int);
        assert(rv.skip(i as int) =~= Seq::<RuleView>::empty());
    }
    RewriteOutcome::Unchanged
}

/// Applies `rules` to `path` without request facts: rules that carry
/// conditions never fire.
pub fn apply(path: &str, rules: &[RewriteRule]) -> (r: RewriteOutcome)
    ensures
        r@ == apply_spec(rules_view(rules@), path@, empty_context()),
{
    let ctx = RewriteContext { http_host: None, request_method: None, query_string: None };
    apply_with_context(path, rules, &ctx)
}


/// A condition tests the request fact its variable names: `HTTP_HOST` the
/// host, `REQUEST_METHOD` the method and `QUERY_STRING` the query string.
/// It holds exactly when that fact is present and the condition's
/// pattern compiles and matches it; a condition on any other variable
/// never holds.
pub proof fn law_condition_tests_its_variable(cond: CondView, ctx: ContextView)
    ensures
        cond.variable == "HTTP_HOST"@ ==> (condition_holds(cond, ctx) <==> (ctx.http_host matches Some(h)
            && regex_compiles(cond.pattern) && regex_is_match(cond.pattern, h))),
        cond.variable == "REQUEST_METHOD"@ ==> (condition_holds(cond, ctx) <==> (
        ctx.request_method matches Some(m) && regex_compiles(cond.pattern) && regex_is_match(
            cond.pattern,
            m,
        ))),
        cond.variable == "QUERY_STRING"@ ==> (condition_holds(cond, ctx) <==> (ctx.query_string matches Some(
            q,
        ) && regex_compiles(cond.pattern) && regex_is_match(cond.pattern, q))),
        cond.variable != "HTTP_HOST"@ && cond.variable != "REQUEST_METHOD"@ && cond.variable
            != "QUERY_STRING"@ ==> !condition_holds(cond, ctx),
{
    reveal_strlit("HTTP_HOST");
    reveal_strlit("REQUEST_METHOD");
    reveal_strlit("QUERY_STRING");
    assert("HTTP_HOST"@.len() == 9);
    assert("REQUEST_METHOD"@.len() == 14);
    assert("QUERY_STRING"@.len() == 12);
}

} // verus!
