//! The order of the matcher fragments and their text.
//!
//! A generated tokenizer tries the rules one after another and takes the
//! first whose pattern matches, whatever a later rule would match: context
//! rules first, then action rules, then plain rules, and within each of these
//! tiers in the order of declaration.

use vstd::prelude::*;
use crate::fragments;
use crate::matching::{
    generate_pattern_match_code, match_code, pattern_to_regex, quote, quoted, regex_text, Quoting,
};
use crate::kinds::text_is;
use crate::rules::{contexts_defined, rule_views, LexerRule, RuleView};

verus! {

/// The three tiers of rules, in the order in which they are tried.
#[derive(Clone, Copy, Debug, PartialEq, Eq, Structural)]
pub enum Tier {
    /// Rules that apply only behind a given token.
    Context,
    /// Rules that run host code.
    Action,
    /// Rules that produce their token.
    Plain,
}

/// The tier of a rule. A rule with a context is a context rule, whatever
/// else it has.
pub open spec fn tier_of(rule: RuleView) -> Tier {
    if rule.context_token is Some {
        Tier::Context
    } else if rule.action_code is Some {
        Tier::Action
    } else {
        Tier::Plain
    }
}

/// The place of a tier among the tiers.
pub open spec fn tier_rank(tier: Tier) -> int {
    match tier {
        Tier::Context => 0,
        Tier::Action => 1,
        Tier::Plain => 2,
    }
}

/// The positions of the rules of one tier, in the order of declaration.
pub open spec fn tier_members(rules: Seq<RuleView>, tier: Tier) -> Seq<int>
    decreases rules.len(),
{
    if rules.len() == 0 {
        Seq::empty()
    } else if tier_of(rules.last()) == tier {
        tier_members(rules.drop_last(), tier).push(rules.len() - 1)
    } else {
        tier_members(rules.drop_last(), tier)
    }
}

/// The positions of the rules in the order in which their fragments are
/// emitted.
pub open spec fn emission_order(rules: Seq<RuleView>) -> Seq<int> {
    tier_members(rules, Tier::Context) + tier_members(rules, Tier::Action) + tier_members(
        rules,
        Tier::Plain,
    )
}

/// Whether the rule at position `a` is tried before the rule at position
/// `b`: its tier comes first, or they share a tier and it was declared first.
pub open spec fn tried_before(rules: Seq<RuleView>, a: int, b: int) -> bool {
    let ra = tier_rank(tier_of(rules[a]));
    let rb = tier_rank(tier_of(rules[b]));
    ra < rb || (ra == rb && a < b)
}

/// The members of a tier are the positions of its rules, in rising order.
pub proof fn lemma_tier_members(rules: Seq<RuleView>, tier: Tier)
    ensures
        forall|k: int|
            0 <= k < tier_members(rules, tier).len() ==> {
                let i = #[trigger] tier_members(rules, tier)[k];
                0 <= i < rules.len() && tier_of(rules[i]) == tier
            },
        forall|k: int, l: int|
            0 <= k < l < tier_members(rules, tier).len() ==> tier_members(rules, tier)[k]
                < tier_members(rules, tier)[l],
        forall|i: int|
            0 <= i < rules.len() && tier_of(#[trigger] rules[i]) == tier ==> tier_members(
                rules,
                tier,
            ).contains(i),
    decreases rules.len(),
{
    if rules.len() > 0 {
        let front = rules.drop_last();
        lemma_tier_members(front, tier);
        let m = tier_members(rules, tier);
        let f = tier_members(front, tier);
        assert forall|k: int| 0 <= k < m.len() implies {
            let i = #[trigger] m[k];
            0 <= i < rules.len() && tier_of(rules[i]) == tier
        } by {}
        assert forall|i: int|
            0 <= i < rules.len() && tier_of(#[trigger] rules[i]) == tier implies m.contains(
            i,
        ) by {
            if i < rules.len() - 1 {
                assert(front[i] == rules[i]);
                let k = choose|k: int| 0 <= k < f.len() && f[k] == i;
                assert(m[k] == i);
            } else {
                assert(m[m.len() - 1] == i);
            }
        }
    }
}

/// The three tiers share out the rules.
pub proof fn lemma_tiers_cover(rules: Seq<RuleView>)
    ensures
        tier_members(rules, Tier::Context).len() + tier_members(rules, Tier::Action).len()
            + tier_members(rules, Tier::Plain).len() == rules.len(),
    decreases rules.len(),
{
    if rules.len() > 0 {
        lemma_tiers_cover(rules.drop_last());
    }
}

/// The emitter's ordering: every rule has one fragment, and of two fragments
/// the one of the rule that is tried first comes first. So a rule declared
/// before another of its tier is tried before it, however long the text is
/// that either would match.
pub proof fn lemma_emission_order(rules: Seq<RuleView>)
    ensures
        emission_order(rules).len() == rules.len(),
        emission_order(rules).no_duplicates(),
        forall|i: int| 0 <= i < rules.len() ==> emission_order(rules).contains(i),
        forall|k: int|
            0 <= k < rules.len() ==> 0 <= #[trigger] emission_order(rules)[k] < rules.len(),
        forall|k: int, l: int|
            0 <= k < l < rules.len() ==> tried_before(
                rules,
                emission_order(rules)[k],
                emission_order(rules)[l],
            ),
{
    let c = tier_members(rules, Tier::Context);
    let a = tier_members(rules, Tier::Action);
    let p = tier_members(rules, Tier::Plain);
    let order = emission_order(rules);
    lemma_tier_members(rules, Tier::Context);
    lemma_tier_members(rules, Tier::Action);
    lemma_tier_members(rules, Tier::Plain);
    lemma_tiers_cover(rules);
    assert forall|k: int| 0 <= k < order.len() implies {
        let i = #[trigger] order[k];
        &&& 0 <= i < rules.len()
        &&& tier_rank(tier_of(rules[i])) == (if k < c.len() {
            0int
        } else if k < c.len() + a.len() {
            1int
        } else {
            2int
        })
    } by {}
    assert forall|i: int| 0 <= i < rules.len() implies order.contains(i) by {
        let tier = tier_of(rules[i]);
        match tier {
            Tier::Context => {
                let k = choose|k: int| 0 <= k < c.len() && c[k] == i;
                assert(order[k] == i);
            },
            Tier::Action => {
                let k = choose|k: int| 0 <= k < a.len() && a[k] == i;
                assert(order[c.len() + k] == i);
            },
            Tier::Plain => {
                let k = choose|k: int| 0 <= k < p.len() && p[k] == i;
                assert(order[c.len() + a.len() + k] == i);
            },
        }
    }
}

/// The positions from 0 to `n`, in rising order.
pub open spec fn rising(n: nat) -> Seq<int> {
    Seq::new(n, |i: int| i)
}

/// A tier that holds every rule holds them in the order of declaration, and
/// the other tiers hold none.
pub proof fn lemma_one_tier(rules: Seq<RuleView>, tier: Tier, other: Tier)
    requires
        forall|i: int| 0 <= i < rules.len() ==> tier_of(#[trigger] rules[i]) == tier,
        other != tier,
    ensures
        tier_members(rules, tier) == rising(rules.len()),
        tier_members(rules, other) == Seq::<int>::empty(),
    decreases rules.len(),
{
    if rules.len() > 0 {
        lemma_one_tier(rules.drop_last(), tier, other);
    }
}

/// Where no rule has a context or an action, the fragments are those of the
/// rules in the order of declaration, and nothing else.
pub proof fn lemma_plain_rules_in_order(rules: Seq<RuleView>)
    requires
        forall|i: int| 0 <= i < rules.len() ==> tier_of(#[trigger] rules[i]) == Tier::Plain,
    ensures
        emission_order(rules) == rising(rules.len()),
{
    lemma_one_tier(rules, Tier::Plain, Tier::Context);
    lemma_one_tier(rules, Tier::Plain, Tier::Action);
}

/// The positions in `order` as mathematical integers.
pub open spec fn positions(order: Seq<usize>) -> Seq<int> {
    Seq::new(order.len(), |k: int| order[k] as int)
}

impl LexerRule {
    /// The tier of the rule.
    pub fn tier(&self) -> (tier: Tier)
        ensures
            tier == tier_of(self@),
    {
        if self.context_token.is_some() {
            Tier::Context
        } else if self.action_code.is_some() {
            Tier::Action
        } else {
            Tier::Plain
        }
    }
}

/// Appends to `order` the positions of the rules of one tier.
fn push_tier(order: &mut Vec<usize>, rules: &[LexerRule], tier: Tier)
    ensures
        positions(final(order)@) == positions(old(order)@) + tier_members(rule_views(rules@), tier),
{
    let n = rules.len();
    let ghost views = rule_views(rules@);
    let mut i: usize = 0;
    while i < n
        invariant
            n == rules@.len(),
            views == rule_views(rules@),
            i <= n,
            positions(order@) == positions(old(order)@) + tier_members(views.take(i as int), tier),
        decreases n - i,
    {
        proof {
            assert(views.take(i + 1).drop_last() =~= views.take(i as int));
        }
        let ghost before = order@;
        let found = rules[i].tier();
        let same = match (found, tier) {
            (Tier::Context, Tier::Context) => true,
            (Tier::Action, Tier::Action) => true,
            (Tier::Plain, Tier::Plain) => true,
            _ => false,
        };
        if same {
            order.push(i);
            assert(positions(order@) =~= positions(before).push(i as int));
        }
        i += 1;
    }
    assert(views.take(n as int) =~= views);
}

/// The positions of the rules in the order in which they are tried: context
/// rules, action rules, plain rules, each tier in the order of declaration.
pub fn rule_order(rules: &[LexerRule]) -> (order: Vec<usize>)
    ensures
        positions(order@) == emission_order(rule_views(rules@)),
{
    let mut order: Vec<usize> = Vec::new();
    push_tier(&mut order, rules, Tier::Context);
    push_tier(&mut order, rules, Tier::Action);
    push_tier(&mut order, rules, Tier::Plain);
    order
}

/// Whether a token of this name leaves the context as it is: white space and
/// line ends do, so that a context rule still applies behind them.
pub open spec fn keeps_context(name: Seq<char>) -> bool {
    ||| name == "WHITESPACE"@
    ||| name == "Whitespace"@
    ||| name == "NEWLINE"@
    ||| name == "Newline"@
}

/// The statement of a plain rule on the context.
pub open spec fn context_statement(name: Seq<char>) -> Seq<char> {
    if keeps_context(name) {
        fragments::KEEP_CONTEXT@
    } else {
        fragments::SET_CONTEXT@
    }
}

/// The text of an optional string, empty where there is none.
pub open spec fn text_or_empty(text: Option<Seq<char>>) -> Seq<char> {
    match text {
        Some(text) => text,
        None => Seq::empty(),
    }
}

/// The pattern of a rule as its comment shows it.
pub open spec fn pattern_comment(rule: RuleView) -> Seq<char> {
    quoted(Quoting::Comment, regex_text(rule.pattern))
}

/// The matcher fragment of the rule at `position`: the code that tries the
/// rule at the current place of the input. A context rule is guarded by the
/// last token and sets the context; an action rule runs its code behind the
/// match; a plain rule produces its token and sets the context unless its
/// name keeps it. A pattern that needs the engine is looked up under the key
/// of `position`.
pub open spec fn fragment(rule: RuleView, position: nat) -> Seq<char> {
    let code = match_code(rule.pattern, position);
    match tier_of(rule) {
        Tier::Context => fragments::CONTEXT_RULE_OPEN@ + pattern_comment(rule)
            + fragments::RULE_ARROW@ + rule.name + fragments::CONTEXT_RULE_AFTER@ + text_or_empty(
            rule.context_token,
        ) + fragments::CONTEXT_RULE_GUARD@ + text_or_empty(rule.context_token)
            + fragments::CONTEXT_RULE_MATCH@ + code + fragments::CONTEXT_RULE_TOKEN@ + rule.name
            + fragments::CONTEXT_RULE_CLOSE@,
        Tier::Action => fragments::ACTION_RULE_OPEN@ + pattern_comment(rule)
            + fragments::ACTION_RULE_BRACE@ + text_or_empty(rule.action_code)
            + fragments::ACTION_RULE_MATCH@ + code + fragments::ACTION_RULE_RUN@ + text_or_empty(
            rule.action_code,
        ) + fragments::ACTION_RULE_CLOSE@,
        Tier::Plain => fragments::PLAIN_RULE_OPEN@ + pattern_comment(rule) + fragments::RULE_ARROW@
            + rule.name + fragments::PLAIN_RULE_MATCH@ + code + fragments::PLAIN_RULE_TOKEN@
            + rule.name + fragments::PLAIN_RULE_CONTEXT@ + context_statement(rule.name)
            + fragments::PLAIN_RULE_CLOSE@,
    }
}

/// The fragments of the rules at the positions `order`, one behind the other.
pub open spec fn fragments_at(rules: Seq<RuleView>, order: Seq<int>) -> Seq<char>
    decreases order.len(),
{
    if order.len() == 0 {
        Seq::empty()
    } else {
        fragments_at(rules, order.drop_last()) + fragment(
            rules[order.last()],
            order.last() as nat,
        )
    }
}

/// The matcher code of a tokenizer: the fragments of its rules in the order
/// in which they are tried.
pub open spec fn matcher_code(rules: Seq<RuleView>) -> Seq<char> {
    fragments_at(rules, emission_order(rules))
}

/// The pattern of a rule as its comment shows it.
fn comment_of(rule: &LexerRule) -> (out: String)
    ensures
        out@ == pattern_comment(rule@),
{
    let text = pattern_to_regex(&rule.pattern);
    quote(Quoting::Comment, text.as_str())
}

/// Tests whether a token of this name leaves the context as it is.
pub fn is_context_neutral(name: &String) -> (b: bool)
    ensures
        b == keeps_context(name@),
{
    text_is(name, "WHITESPACE") || text_is(name, "Whitespace") || text_is(name, "NEWLINE")
        || text_is(name, "Newline")
}

/// Writes the matcher fragment of the rule at `position`.
pub fn rule_fragment(rule: &LexerRule, position: usize) -> (out: String)
    ensures
        out@ == fragment(rule@, position as nat),
{
    let comment = comment_of(rule);
    let (code, _) = generate_pattern_match_code(&rule.pattern, position);
    match (&rule.context_token, &rule.action_code) {
        (Some(context), _) => {
            let mut out = String::from_str(fragments::CONTEXT_RULE_OPEN);
            out.append(comment.as_str());
            out.append(fragments::RULE_ARROW);
            out.append(rule.name.as_str());
            out.append(fragments::CONTEXT_RULE_AFTER);
            out.append(context.as_str());
            out.append(fragments::CONTEXT_RULE_GUARD);
            out.append(context.as_str());
            out.append(fragments::CONTEXT_RULE_MATCH);
            out.append(code.as_str());
            out.append(fragments::CONTEXT_RULE_TOKEN);
            out.append(rule.name.as_str());
            out.append(fragments::CONTEXT_RULE_CLOSE);
            out
        },
        (None, Some(action)) => {
            let mut out = String::from_str(fragments::ACTION_RULE_OPEN);
            out.append(comment.as_str());
            out.append(fragments::ACTION_RULE_BRACE);
            out.append(action.as_str());
            out.append(fragments::ACTION_RULE_MATCH);
            out.append(code.as_str());
            out.append(fragments::ACTION_RULE_RUN);
            out.append(action.as_str());
            out.append(fragments::ACTION_RULE_CLOSE);
            out
        },
        (None, None) => {
            let mut out = String::from_str(fragments::PLAIN_RULE_OPEN);
            out.append(comment.as_str());
            out.append(fragments::RULE_ARROW);
            out.append(rule.name.as_str());
            out.append(fragments::PLAIN_RULE_MATCH);
            out.append(code.as_str());
            out.append(fragments::PLAIN_RULE_TOKEN);
            out.append(rule.name.as_str());
            out.append(fragments::PLAIN_RULE_CONTEXT);
            if is_context_neutral(&rule.name) {
                out.append(fragments::KEEP_CONTEXT);
            } else {
                out.append(fragments::SET_CONTEXT);
            }
            out.append(fragments::PLAIN_RULE_CLOSE);
            out
        },
    }
}

/// Writes the matcher code of a tokenizer.
///
/// Each context rule has to name a token that one of the rules produces:
/// there is no fragment for a rule whose context never comes.
pub fn emit_matchers(rules: &[LexerRule]) -> (out: String)
    requires
        contexts_defined(rule_views(rules@)),
    ensures
        out@ == matcher_code(rule_views(rules@)),
{
    let order = rule_order(rules);
    let ghost views = rule_views(rules@);
    let ghost plan = emission_order(views);
    proof {
        lemma_emission_order(views);
    }
    let n = order.len();
    let mut out = String::new();
    let mut k: usize = 0;
    while k < n
        invariant
            views == rule_views(rules@),
            plan == emission_order(views),
            positions(order@) == plan,
            n == order@.len(),
            plan.len() == rules@.len(),
            forall|l: int| 0 <= l < plan.len() ==> 0 <= #[trigger] plan[l] < rules@.len(),
            k <= n,
            out@ == fragments_at(views, plan.take(k as int)),
        decreases n - k,
    {
        proof {
            assert(plan.take(k + 1).drop_last() =~= plan.take(k as int));
            assert(plan.take(k + 1).last() == plan[k as int]);
        }
        let i = order[k];
        let text = rule_fragment(&rules[i], i);
        out.append(text.as_str());
        k += 1;
    }
    assert(plan.take(n as int) =~= plan);
    out
}

} // verus!
