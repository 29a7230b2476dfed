//! The load order and the rules that follow from it.

use crate::document::{document_text, is_yaml_outcome};
use crate::error::LootifierError;
use crate::file_util::{
    filter_lines, is_load_order, lemma_plugin_names_are_load_order, plugin_names,
};
use crate::rules::{
    escaped, escaped_names, group_rules, plugin_rules, rule_set_of, LootRule, RuleSet, RuleView,
};
use crate::text::{lines_of, split_lines};
use vstd::prelude::*;

verus! {

/// A load order: the plugin names of a listing, in the order of the listing.
pub struct Lootifier {
    plugins: Vec<String>,
}

impl View for Lootifier {
    type V = Seq<Seq<char>>;

    closed spec fn view(&self) -> Seq<Seq<char>> {
        self.plugins.deep_view()
    }
}

impl Lootifier {
    /// What holds of every load order: its names are trimmed, and none is
    /// empty or a comment.
    #[verifier::type_invariant]
    closed spec fn well_formed(self) -> bool {
        is_load_order(self.plugins.deep_view())
    }

    /// The YAML text of the load order's rule set, or `None` where there is
    /// none.
    pub open spec fn rules_text(self) -> Option<Seq<char>> {
        document_text(rule_set_of(self@))
    }

    /// Whether `result` is what `generate_rules` may return for the load
    /// order: the text of its rule set, or a serialization failure where
    /// there is no such text.
    pub open spec fn generates(self, result: Result<String, LootifierError>) -> bool {
        is_yaml_outcome(rule_set_of(self@), result)
    }

    /// Generating again gives the same: what `generate_rules` returns for
    /// two load orders of the same names is twice the same text, or twice a
    /// failure.
    pub proof fn lemma_generate_rules_repeats(
        self,
        other: Lootifier,
        first: Result<String, LootifierError>,
        second: Result<String, LootifierError>,
    )
        requires
            self@ == other@,
            self.generates(first),
            other.generates(second),
        ensures
            first is Ok <==> second is Ok,
            first is Ok ==> first->Ok_0@ == second->Ok_0@,
    {
    }

    /// The load order of a listing given as its lines, read from a file.
    pub fn from_file(lines: &[String]) -> (order: Lootifier)
        ensures
            order@ == plugin_names(lines.deep_view()),
            is_load_order(order@),
    {
        proof {
            lemma_plugin_names_are_load_order(lines.deep_view());
        }
        Lootifier { plugins: filter_lines(lines) }
    }

    /// The load order of a listing given as one text.
    pub fn from_string(text: &str) -> (order: Lootifier)
        ensures
            order@ == plugin_names(lines_of(text@)),
            is_load_order(order@),
    {
        let lines = split_lines(text);
        proof {
            lemma_plugin_names_are_load_order(lines.deep_view());
        }
        Lootifier { plugins: filter_lines(lines.as_slice()) }
    }

    /// The plugin names, in load order.
    pub fn plugins(&self) -> (names: &Vec<String>)
        ensures
            names.deep_view() == self@,
            is_load_order(self@),
    {
        proof {
            use_type_invariant(self);
        }
        &self.plugins
    }

    /// Doubles every single quote of a name.
    pub fn escape_string(string: &str) -> (out: String)
        ensures
            out@ == escaped(string@),
    {
        let mut out = String::new();
        for c in it: string.chars()
            invariant
                it.seq() == string@,
                out@ == escaped(string@.take(it.index())),
        {
            assert(string@.take(it.index() + 1).drop_last() =~= string@.take(it.index()));
            if c == '\'' {
                out.push('\'');
                out.push('\'');
            } else {
                out.push(c);
            }
        }
        assert(string@.take(string@.len() as int) =~= string@);
        out
    }

    /// The group rules of a list of escaped names: each name but the first
    /// loads after the name before it.
    pub fn generate_group_rules(escaped_plugins: &[String]) -> (rules: Vec<LootRule>)
        ensures
            rules.deep_view() == group_rules(escaped_plugins.deep_view()),
            rules.len() == if escaped_plugins.len() == 0 {
                0
            } else {
                escaped_plugins.len() - 1
            },
            forall|i: int|
                0 <= i < rules.len() ==> {
                    &&& (#[trigger] rules[i]).name@ == escaped_plugins[i + 1]@
                    &&& rules[i]@.after == Some(escaped_plugins[i]@)
                    &&& rules[i]@.group is None
                },
    {
        let mut rules: Vec<LootRule> = Vec::new();
        let mut i: usize = 1;
        while i < escaped_plugins.len()
            invariant
                1 <= i,
                rules.len() == i - 1,
                i <= escaped_plugins.len() || rules.len() == 0,
                forall|k: int|
                    0 <= k < rules.len() ==> (#[trigger] rules[k])@ == (RuleView {
                        name: escaped_plugins[k + 1]@,
                        after: Some(escaped_plugins[k]@),
                        group: None,
                    }),
            decreases escaped_plugins.len() - i,
        {
            rules.push(
                LootRule {
                    name: escaped_plugins[i].clone(),
                    after: Some(escaped_plugins[i - 1].clone()),
                    group: None,
                },
            );
            i += 1;
        }
        assert(rules.deep_view() =~= group_rules(escaped_plugins.deep_view()));
        rules
    }

    /// The plugin rules of a list of escaped names: each name belongs to the
    /// group of the same name.
    pub fn generate_plugin_rules(escaped_plugins: &[String]) -> (rules: Vec<LootRule>)
        ensures
            rules.deep_view() == plugin_rules(escaped_plugins.deep_view()),
            rules.len() == escaped_plugins.len(),
            forall|i: int|
                0 <= i < rules.len() ==> {
                    &&& (#[trigger] rules[i]).name@ == escaped_plugins[i]@
                    &&& rules[i]@.group == Some(rules[i].name@)
                    &&& rules[i]@.after is None
                },
    {
        let mut rules: Vec<LootRule> = Vec::new();
        let mut i: usize = 0;
        while i < escaped_plugins.len()
            invariant
                i <= escaped_plugins.len(),
                rules.len() == i,
                forall|k: int|
                    0 <= k < rules.len() ==> (#[trigger] rules[k])@ == (RuleView {
                        name: escaped_plugins[k]@,
                        after: None,
                        group: Some(escaped_plugins[k]@),
                    }),
            decreases escaped_plugins.len() - i,
        {
            rules.push(
                LootRule {
                    name: escaped_plugins[i].clone(),
                    after: None,
                    group: Some(escaped_plugins[i].clone()),
                },
            );
            i += 1;
        }
        assert(rules.deep_view() =~= plugin_rules(escaped_plugins.deep_view()));
        rules
    }

    /// The rule set of the load order: the plugin names escaped, then their
    /// group rules and their plugin rules.
    pub fn rule_set(&self) -> (rules: RuleSet)
        ensures
            rules@ == rule_set_of(self@),
    {
        let mut escaped_plugins: Vec<String> = Vec::new();
        let mut i: usize = 0;
        while i < self.plugins.len()
            invariant
                i <= self.plugins.len(),
                escaped_plugins.len() == i,
                forall|k: int|
                    0 <= k < i ==> (#[trigger] escaped_plugins[k])@ == escaped(self.plugins[k]@),
            decreases self.plugins.len() - i,
        {
            escaped_plugins.push(Self::escape_string(self.plugins[i].as_str()));
            i += 1;
        }
        assert(escaped_plugins.deep_view() =~= escaped_names(self@));
        RuleSet {
            groups: Self::generate_group_rules(escaped_plugins.as_slice()),
            plugins: Self::generate_plugin_rules(escaped_plugins.as_slice()),
        }
    }

    /// The YAML document of the load order's rule set.
    ///
    /// The text is the serializer's. It fails where the document is larger
    /// than the largest size, and where the serializer gives an error.
    pub fn generate_rules(&self) -> (result: Result<String, LootifierError>)
        ensures
            self.generates(result),
    {
        self.rule_set().to_yaml()
    }
}

} // verus!
