//! Rules and rule sets, and what the rules of a load order are.

use vstd::prelude::*;

verus! {

/// One rule of the document: a name, and the name it loads after or the
/// group it belongs to.
#[derive(Debug, PartialEq, Eq)]
pub struct LootRule {
    pub name: String,
    pub after: Option<String>,
    pub group: Option<String>,
}

/// A rule as a mathematical value.
pub struct RuleView {
    pub name: Seq<char>,
    pub after: Option<Seq<char>>,
    pub group: Option<Seq<char>>,
}

/// The view of an optional string.
pub open spec fn option_view(text: Option<String>) -> Option<Seq<char>> {
    match text {
        Some(text) => Some(text@),
        None => None,
    }
}

impl View for LootRule {
    type V = RuleView;

    open spec fn view(&self) -> RuleView {
        RuleView {
            name: self.name@,
            after: option_view(self.after),
            group: option_view(self.group),
        }
    }
}

impl DeepView for LootRule {
    type V = RuleView;

    open spec fn deep_view(&self) -> RuleView {
        self@
    }
}

/// The two rule lists of a document.
#[derive(Debug, PartialEq, Eq)]
pub struct RuleSet {
    pub groups: Vec<LootRule>,
    pub plugins: Vec<LootRule>,
}

/// A rule set as a mathematical value.
pub struct RuleSetView {
    pub groups: Seq<RuleView>,
    pub plugins: Seq<RuleView>,
}

impl View for RuleSet {
    type V = RuleSetView;

    open spec fn view(&self) -> RuleSetView {
        RuleSetView { groups: self.groups.deep_view(), plugins: self.plugins.deep_view() }
    }
}

/// `name` with every single quote doubled.
pub open spec fn escaped(name: Seq<char>) -> Seq<char>
    decreases name.len(),
{
    if name.len() == 0 {
        Seq::empty()
    } else if name.last() == '\'' {
        escaped(name.drop_last()).push('\'').push('\'')
    } else {
        escaped(name.drop_last()).push(name.last())
    }
}

/// `text` with every pair of adjacent single quotes replaced by one single
/// quote: what a reader of a single-quoted YAML scalar makes of its content.
pub open spec fn unescaped(text: Seq<char>) -> Seq<char>
    decreases text.len(),
{
    if text.len() == 0 {
        Seq::empty()
    } else if text.len() >= 2 && text.last() == '\'' && text[text.len() - 2] == '\'' {
        unescaped(text.take(text.len() - 2)).push('\'')
    } else {
        unescaped(text.drop_last()).push(text.last())
    }
}

/// Every name escaped.
pub open spec fn escaped_names(names: Seq<Seq<char>>) -> Seq<Seq<char>> {
    names.map_values(|name: Seq<char>| escaped(name))
}

/// The group rules of a list of names: one for each name but the first,
/// which says that the name loads after the name before it.
pub open spec fn group_rules(names: Seq<Seq<char>>) -> Seq<RuleView> {
    Seq::new(
        if names.len() == 0 {
            0
        } else {
            (names.len() - 1) as nat
        },
        |i: int| RuleView { name: names[i + 1], after: Some(names[i]), group: None },
    )
}

/// The plugin rules of a list of names: one for each name, which puts the
/// name into the group of the same name.
pub open spec fn plugin_rules(names: Seq<Seq<char>>) -> Seq<RuleView> {
    Seq::new(
        names.len(),
        |i: int| RuleView { name: names[i], after: None, group: Some(names[i]) },
    )
}

/// The rule set of a load order: the group rules and the plugin rules of
/// its escaped names.
pub open spec fn rule_set_of(plugins: Seq<Seq<char>>) -> RuleSetView {
    RuleSetView {
        groups: group_rules(escaped_names(plugins)),
        plugins: plugin_rules(escaped_names(plugins)),
    }
}

/// The shape of a rule set. A load order of `n` names has `n` plugin rules,
/// the `i`-th of which puts the `i`-th name into the group of its own name;
/// and, for `n` of 1 or more, `n - 1` group rules, the `i`-th of which says
/// that the name after the `i`-th loads after the `i`-th. All names are
/// escaped, and every rule has either `after` or `group`, never both.
pub proof fn lemma_rule_set_shape(plugins: Seq<Seq<char>>)
    ensures
        rule_set_of(plugins).plugins.len() == plugins.len(),
        plugins.len() >= 1 ==> rule_set_of(plugins).groups.len() == plugins.len() - 1,
        plugins.len() == 0 ==> rule_set_of(plugins).groups.len() == 0,
        forall|i: int|
            0 <= i < rule_set_of(plugins).groups.len() ==> {
                let rule = #[trigger] rule_set_of(plugins).groups[i];
                &&& rule.name == escaped(plugins[i + 1])
                &&& rule.after == Some(escaped(plugins[i]))
                &&& rule.group is None
            },
        forall|i: int|
            0 <= i < rule_set_of(plugins).plugins.len() ==> {
                let rule = #[trigger] rule_set_of(plugins).plugins[i];
                &&& rule.name == escaped(plugins[i])
                &&& rule.group == Some(rule.name)
                &&& rule.after is None
            },
{
}

/// Escaping loses nothing: un-escaping an escaped name gives the name back.
pub proof fn lemma_escape_round_trip(name: Seq<char>)
    ensures
        unescaped(escaped(name)) == name,
    decreases name.len(),
{
    if name.len() > 0 {
        let head = name.drop_last();
        lemma_escape_round_trip(head);
        if name.last() == '\'' {
            let text = escaped(head).push('\'').push('\'');
            assert(text.take(text.len() - 2) =~= escaped(head));
        } else {
            let text = escaped(head).push(name.last());
            assert(text.drop_last() =~= escaped(head));
        }
        assert(head.push(name.last()) =~= name);
    }
}

} // verus!
