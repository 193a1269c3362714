//! The rules of a lexer specification, and the specification itself.

use vstd::prelude::*;
use crate::pattern::{PatternView, RulePattern};

verus! {

/// One rule of a lexer specification.
#[derive(Debug, Clone)]
pub struct LexerRule {
    /// How the token is recognised.
    pub pattern: RulePattern,
    /// The rule's number: its position among the rules of the specification.
    /// It has the type of positions, so that numbering the rules of a file
    /// cannot overflow it, however long the file is.
    pub kind: usize,
    /// The token's name; empty for a rule that only runs an action.
    pub name: String,
    /// The token that has to come before, for a context rule.
    pub context_token: Option<String>,
    /// The host code to run on a match, for an action rule.
    pub action_code: Option<String>,
}

/// The mathematical value of a [`LexerRule`].
pub struct RuleView {
    pub pattern: PatternView,
    pub kind: nat,
    pub name: Seq<char>,
    pub context_token: Option<Seq<char>>,
    pub action_code: Option<Seq<char>>,
}

/// The characters of an optional string.
pub open spec fn text_of(s: Option<String>) -> Option<Seq<char>> {
    match s {
        Some(s) => Some(s@),
        None => None,
    }
}

impl View for LexerRule {
    type V = RuleView;

    open spec fn view(&self) -> RuleView {
        RuleView {
            pattern: self.pattern@,
            kind: self.kind as nat,
            name: self.name@,
            context_token: text_of(self.context_token),
            action_code: text_of(self.action_code),
        }
    }
}

impl LexerRule {
    /// A rule that produces the token `name` wherever `pattern` matches.
    pub fn new(pattern: RulePattern, kind: usize, name: String) -> (rule: Self)
        ensures
            rule@ == (RuleView {
                pattern: pattern@,
                kind: kind as nat,
                name: name@,
                context_token: None,
                action_code: None,
            }),
    {
        LexerRule { pattern, kind, name, context_token: None, action_code: None }
    }

    /// A rule that produces the token `name` wherever `pattern` matches and
    /// the token before was `context_token`.
    pub fn new_with_context(
        pattern: RulePattern,
        kind: usize,
        name: String,
        context_token: String,
    ) -> (rule: Self)
        ensures
            rule@ == (RuleView {
                pattern: pattern@,
                kind: kind as nat,
                name: name@,
                context_token: Some(context_token@),
                action_code: None,
            }),
    {
        LexerRule { pattern, kind, name, context_token: Some(context_token), action_code: None }
    }

    /// A rule that runs `action_code` wherever `pattern` matches. It has no
    /// name, and the number 0 until the assembler gives it one.
    pub fn new_with_action(pattern: RulePattern, action_code: String) -> (rule: Self)
        ensures
            rule@ == (RuleView {
                pattern: pattern@,
                kind: 0,
                name: Seq::<char>::empty(),
                context_token: None,
                action_code: Some(action_code@),
            }),
    {
        LexerRule {
            pattern,
            kind: 0,
            name: String::new(),
            context_token: None,
            action_code: Some(action_code),
        }
    }
}

/// A parsed lexer specification.
#[derive(Debug)]
pub struct LexerSpec {
    /// Host code put at the head of the generated source.
    pub prefix_code: String,
    /// The rules, in the order in which they were declared.
    pub rules: Vec<LexerRule>,
    /// Host code put at the end of the generated source.
    pub suffix_code: String,
    /// The token names declared with `%token`, as declared.
    pub custom_tokens: Vec<String>,
}

/// The mathematical value of a [`LexerSpec`].
pub struct SpecView {
    pub prefix_code: Seq<char>,
    pub rules: Seq<RuleView>,
    pub suffix_code: Seq<char>,
    pub custom_tokens: Seq<Seq<char>>,
}

/// The values of the rules in `rules`, in order.
pub open spec fn rule_views(rules: Seq<LexerRule>) -> Seq<RuleView> {
    Seq::new(rules.len(), |i: int| rules[i]@)
}

/// The characters of the strings in `names`, in order.
pub open spec fn texts_of(names: Seq<String>) -> Seq<Seq<char>> {
    Seq::new(names.len(), |i: int| names[i]@)
}

impl View for LexerSpec {
    type V = SpecView;

    open spec fn view(&self) -> SpecView {
        SpecView {
            prefix_code: self.prefix_code@,
            rules: rule_views(self.rules@),
            suffix_code: self.suffix_code@,
            custom_tokens: texts_of(self.custom_tokens@),
        }
    }
}

/// The position of the first rule named `name`, if there is one.
pub open spec fn defining_rule(rules: Seq<RuleView>, name: Seq<char>) -> Option<int>
    decreases rules.len(),
{
    if rules.len() == 0 {
        None
    } else {
        match defining_rule(rules.drop_last(), name) {
            Some(i) => Some(i),
            None => if rules.last().name == name {
                Some(rules.len() - 1)
            } else {
                None
            },
        }
    }
}

/// The rule that is found is named `name`, and none before it is.
pub proof fn lemma_defining_rule(rules: Seq<RuleView>, name: Seq<char>)
    ensures
        match defining_rule(rules, name) {
            Some(i) => 0 <= i < rules.len() && rules[i].name == name && forall|j: int|
                0 <= j < i ==> rules[j].name != name,
            None => forall|j: int| 0 <= j < rules.len() ==> rules[j].name != name,
        },
    decreases rules.len(),
{
    if rules.len() > 0 {
        let front = rules.drop_last();
        lemma_defining_rule(front, name);
        assert forall|j: int| 0 <= j < front.len() implies rules[j] == front[j] by {}
    }
}

/// Whether each context rule of `rules` names a token that a rule of `rules`
/// produces. Code can be generated for such rules only.
pub open spec fn contexts_defined(rules: Seq<RuleView>) -> bool {
    forall|i: int|
        0 <= i < rules.len() ==> (#[trigger] rules[i].context_token matches Some(context)
            ==> defining_rule(rules, context) is Some)
}

/// Whether the rule at position `i` of `rules` declares the token `name`
/// for the rules behind it: it has that name, which is not empty, and runs
/// no action.
pub open spec fn declares(rules: Seq<RuleView>, i: int, name: Seq<char>) -> bool {
    0 <= i < rules.len() && rules[i].name == name && name.len() > 0 && rules[i].action_code
        is None
}

/// Whether each context rule of `rules` names a token that a rule before it
/// declares.
pub open spec fn contexts_declared_earlier(rules: Seq<RuleView>) -> bool {
    forall|i: int|
        0 <= i < rules.len() ==> (#[trigger] rules[i].context_token matches Some(context)
            ==> exists|j: int| j < i && declares(rules, j, context))
}

/// Whether the rules are numbered from 0 in their order, without a gap.
pub open spec fn numbered_in_order(rules: Seq<RuleView>) -> bool {
    forall|i: int| 0 <= i < rules.len() ==> (#[trigger] rules[i]).kind == i
}

/// Whether a specification is such as the parser gives them: its rules are
/// numbered in their order, and each context rule names a token that a rule
/// before it declares.
pub open spec fn well_formed(spec: SpecView) -> bool {
    numbered_in_order(spec.rules) && contexts_declared_earlier(spec.rules)
}

/// Rules whose contexts are declared earlier have their contexts defined.
pub proof fn lemma_declared_contexts_are_defined(rules: Seq<RuleView>)
    requires
        contexts_declared_earlier(rules),
    ensures
        contexts_defined(rules),
{
    assert forall|i: int| 0 <= i < rules.len() implies (#[trigger] rules[i].context_token
        matches Some(context) ==> defining_rule(rules, context) is Some) by {
        if let Some(context) = rules[i].context_token {
            lemma_defining_rule(rules, context);
        }
    }
}

/// Finds the first rule named `name`.
pub fn find_rule(rules: &[LexerRule], name: &String) -> (found: Option<usize>)
    ensures
        match found {
            Some(i) => defining_rule(rule_views(rules@), name@) == Some(i as int),
            None => defining_rule(rule_views(rules@), name@) is None,
        },
{
    let n = rules.len();
    let ghost views = rule_views(rules@);
    let mut i: usize = 0;
    while i < n
        invariant
            n == rules@.len(),
            views == rule_views(rules@),
            i <= n,
            forall|j: int| 0 <= j < i ==> views[j].name != name@,
        decreases n - i,
    {
        if rules[i].name == *name {
            proof {
                lemma_defining_rule(views, name@);
                assert(views[i as int].name == name@);
            }
            return Some(i);
        }
        i += 1;
    }
    proof {
        lemma_defining_rule(views, name@);
    }
    None
}

/// Tests whether each context rule names a token that some rule produces.
pub fn check_contexts(rules: &[LexerRule]) -> (ok: bool)
    ensures
        ok == contexts_defined(rule_views(rules@)),
{
    let n = rules.len();
    let ghost views = rule_views(rules@);
    let mut i: usize = 0;
    while i < n
        invariant
            n == rules@.len(),
            views == rule_views(rules@),
            i <= n,
            forall|j: int|
                0 <= j < i ==> (#[trigger] views[j].context_token matches Some(context)
                    ==> defining_rule(views, context) is Some),
        decreases n - i,
    {
        match &rules[i].context_token {
            Some(context) => {
                if find_rule(rules, context).is_none() {
                    assert(views[i as int].context_token == Some(context@));
                    return false;
                }
            },
            None => {},
        }
        i += 1;
    }
    true
}

impl LexerSpec {
    /// The specification without code, rules or declared tokens.
    pub fn new() -> (spec: Self)
        ensures
            spec@ == (SpecView {
                prefix_code: Seq::<char>::empty(),
                rules: Seq::<RuleView>::empty(),
                suffix_code: Seq::<char>::empty(),
                custom_tokens: Seq::<Seq<char>>::empty(),
            }),
    {
        let spec = LexerSpec {
            prefix_code: String::new(),
            rules: Vec::new(),
            suffix_code: String::new(),
            custom_tokens: Vec::new(),
        };
        assert(rule_views(spec.rules@) =~= Seq::<RuleView>::empty());
        assert(texts_of(spec.custom_tokens@) =~= Seq::<Seq<char>>::empty());
        spec
    }
}

impl Default for LexerSpec {
    fn default() -> (spec: Self)
        ensures
            spec@ == (SpecView {
                prefix_code: Seq::<char>::empty(),
                rules: Seq::<RuleView>::empty(),
                suffix_code: Seq::<char>::empty(),
                custom_tokens: Seq::<Seq<char>>::empty(),
            }),
    {
        LexerSpec::new()
    }
}

} // verus!
