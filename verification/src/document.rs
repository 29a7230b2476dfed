//! The YAML document of a rule set: which values it is made of, how large
//! it is, and its text.

use crate::error::LootifierError;
use crate::rules::{option_view, LootRule, RuleSet, RuleSetView, RuleView};
use crate::yaml::{
    distinct_text_keys, entries_size, entry_nodes_of, is_document, is_record, is_record_list,
    mapping, node_of, node_size, nodes_of, nodes_size, scalar, sequence, text_size, to_text,
    yaml_text, YamlNode, MAX_DOCUMENT_SIZE, NODE_SIZE,
};
use vstd::prelude::*;

verus! {

/// An entry of a mapping whose key and value are strings.
pub open spec fn text_entry(key: Seq<char>, value: Seq<char>) -> (YamlNode, YamlNode) {
    (YamlNode::Scalar(key), YamlNode::Scalar(value))
}

/// The entry of an optional field: none where the field is absent.
pub open spec fn optional_entry(key: Seq<char>, value: Option<Seq<char>>) -> Seq<
    (YamlNode, YamlNode),
> {
    match value {
        Some(value) => seq![text_entry(key, value)],
        None => Seq::empty(),
    }
}

/// A rule in the document: a mapping with the entry `name`, then `after`
/// and `group` where the rule has them. An absent field has no entry.
pub open spec fn rule_node(rule: RuleView) -> YamlNode {
    YamlNode::Mapping(
        seq![text_entry("name"@, rule.name)] + optional_entry("after"@, rule.after)
            + optional_entry("group"@, rule.group),
    )
}

/// A rule list in the document: the sequence of its rules.
pub open spec fn rules_node(rules: Seq<RuleView>) -> YamlNode {
    YamlNode::Sequence(rules.map_values(|rule: RuleView| rule_node(rule)))
}

/// The document of a rule set: a mapping with the entry `groups`, then the
/// entry `plugins`.
pub open spec fn document_node(rules: RuleSetView) -> YamlNode {
    YamlNode::Mapping(
        seq![
            (YamlNode::Scalar("groups"@), rules_node(rules.groups)),
            (YamlNode::Scalar("plugins"@), rules_node(rules.plugins)),
        ],
    )
}

/// The size of the document of a rule set.
pub open spec fn rule_set_size(rules: RuleSetView) -> nat {
    node_size(document_node(rules))
}

/// The YAML text of a rule set: what the serializer writes for its document.
/// There is none where the document is larger than the largest size, or
/// where the serializer gives an error.
pub open spec fn document_text(rules: RuleSetView) -> Option<Seq<char>> {
    if rule_set_size(rules) <= MAX_DOCUMENT_SIZE {
        yaml_text(document_node(rules))
    } else {
        None
    }
}

/// The message of the failure for a document that is too large.
pub open spec fn too_large_message() -> Seq<char> {
    "the document is too large for the YAML serializer"@
}

/// Whether `result` is what writing a rule set as YAML may give: the text of
/// the rule set, or a serialization failure where there is no such text. The
/// failure for a document that is too large has a message of its own.
pub open spec fn is_yaml_outcome(
    rules: RuleSetView,
    result: Result<String, LootifierError>,
) -> bool {
    match result {
        Ok(text) => document_text(rules) == Some(text@),
        Err(error) => {
            &&& document_text(rules) is None
            &&& error is SerializationFailure
            &&& rule_set_size(rules) > MAX_DOCUMENT_SIZE ==> error.message_of()
                == too_large_message()
        },
    }
}

/// A size as the size tests hand it on: itself up to the largest size, and
/// one more than the largest size beyond.
pub open spec fn capped(size: nat) -> nat {
    if size <= MAX_DOCUMENT_SIZE {
        size
    } else {
        (MAX_DOCUMENT_SIZE + 1) as nat
    }
}

/// What an optional field counts for: its key and its value where it is
/// present, nothing where it is absent.
pub open spec fn field_size(key: Seq<char>, value: Option<Seq<char>>) -> nat {
    match value {
        Some(value) => text_size(key) + text_size(value),
        None => 0,
    }
}

/// The keys of a rule differ from each other.
proof fn lemma_rule_keys_differ()
    ensures
        "name"@ != "after"@,
        "name"@ != "group"@,
        "after"@ != "group"@,
{
    reveal_strlit("name");
    reveal_strlit("after");
    reveal_strlit("group");
    assert("name"@.len() == 4);
    assert("after"@.len() == 5);
    assert("after"@[0] == 'a');
    assert("group"@[0] == 'g');
}

/// The keys of the document differ from each other.
proof fn lemma_document_keys_differ()
    ensures
        "groups"@ != "plugins"@,
{
    reveal_strlit("groups");
    reveal_strlit("plugins");
    assert("groups"@.len() == 6);
    assert("plugins"@.len() == 7);
}

/// One more entry adds what its key and its value count for.
proof fn lemma_entries_size_push(entries: Seq<(YamlNode, YamlNode)>, entry: (YamlNode, YamlNode))
    ensures
        entries_size(entries.push(entry)) == entries_size(entries) + node_size(entry.0)
            + node_size(entry.1),
{
    assert(entries.push(entry).drop_last() =~= entries);
}

/// One more node adds its size.
proof fn lemma_nodes_size_push(items: Seq<YamlNode>, item: YamlNode)
    ensures
        nodes_size(items.push(item)) == nodes_size(items) + node_size(item),
{
    assert(items.push(item).drop_last() =~= items);
}

/// A rule has the size of a node, of its name and of the fields that it
/// has, and it is a mapping from strings to strings.
proof fn lemma_rule_node(rule: RuleView)
    ensures
        node_size(rule_node(rule)) == NODE_SIZE + text_size("name"@) + text_size(rule.name)
            + field_size("after"@, rule.after) + field_size("group"@, rule.group),
        is_record(rule_node(rule)),
{
    let none = Seq::<(YamlNode, YamlNode)>::empty();
    let named = none.push(text_entry("name"@, rule.name));
    let entries = seq![text_entry("name"@, rule.name)] + optional_entry("after"@, rule.after)
        + optional_entry("group"@, rule.group);
    lemma_entries_size_push(none, text_entry("name"@, rule.name));
    match (rule.after, rule.group) {
        (Some(after), Some(group)) => {
            let first = named.push(text_entry("after"@, after));
            lemma_entries_size_push(named, text_entry("after"@, after));
            lemma_entries_size_push(first, text_entry("group"@, group));
            assert(entries =~= first.push(text_entry("group"@, group)));
        },
        (Some(after), None) => {
            lemma_entries_size_push(named, text_entry("after"@, after));
            assert(entries =~= named.push(text_entry("after"@, after)));
        },
        (None, Some(group)) => {
            lemma_entries_size_push(named, text_entry("group"@, group));
            assert(entries =~= named.push(text_entry("group"@, group)));
        },
        (None, None) => {
            assert(entries =~= named);
        },
    }
}

/// The document has the size of a node, of its two keys and of its two rule
/// lists, and it has the shape that the serializer is called with.
proof fn lemma_document_node(rules: RuleSetView)
    ensures
        rule_set_size(rules) == NODE_SIZE + text_size("groups"@) + node_size(
            rules_node(rules.groups),
        ) + text_size("plugins"@) + node_size(rules_node(rules.plugins)),
        is_document(document_node(rules)),
{
    let none = Seq::<(YamlNode, YamlNode)>::empty();
    let groups = (YamlNode::Scalar("groups"@), rules_node(rules.groups));
    let plugins = (YamlNode::Scalar("plugins"@), rules_node(rules.plugins));
    lemma_entries_size_push(none, groups);
    lemma_entries_size_push(none.push(groups), plugins);
    assert(seq![groups, plugins] =~= none.push(groups).push(plugins));
    assert forall|rule: RuleView| is_record(#[trigger] rule_node(rule)) by {
        lemma_rule_node(rule);
    }
    assert(is_record_list(rules_node(rules.groups)));
    assert(is_record_list(rules_node(rules.plugins)));
}

/// Adds two capped sizes.
fn capped_sum(a: usize, b: usize) -> (sum: usize)
    requires
        a <= MAX_DOCUMENT_SIZE + 1,
        b <= MAX_DOCUMENT_SIZE + 1,
    ensures
        sum == capped((a + b) as nat),
{
    if a > MAX_DOCUMENT_SIZE || b > MAX_DOCUMENT_SIZE - a {
        MAX_DOCUMENT_SIZE + 1
    } else {
        a + b
    }
}

/// What a string counts for, capped.
fn string_size(text: &str) -> (size: usize)
    ensures
        size == capped(text_size(text@)),
{
    let bytes = text.as_bytes().len();
    if bytes > MAX_DOCUMENT_SIZE - NODE_SIZE {
        MAX_DOCUMENT_SIZE + 1
    } else {
        NODE_SIZE + bytes
    }
}

/// What an optional field counts for, capped.
fn optional_size(key: &str, value: &Option<String>) -> (size: usize)
    ensures
        size == capped(field_size(key@, option_view(*value))),
{
    match value {
        Some(value) => capped_sum(string_size(key), string_size(value.as_str())),
        None => 0,
    }
}

/// The size of a rule in the document, capped.
fn rule_size(rule: &LootRule) -> (size: usize)
    ensures
        size == capped(node_size(rule_node(rule@))),
{
    proof {
        lemma_rule_node(rule@);
    }
    let name = capped_sum(string_size("name"), string_size(rule.name.as_str()));
    let after = optional_size("after", &rule.after);
    let group = optional_size("group", &rule.group);
    capped_sum(capped_sum(capped_sum(NODE_SIZE, name), after), group)
}

/// The size of a rule list in the document, capped.
fn rule_list_size(rules: &Vec<LootRule>) -> (size: usize)
    ensures
        size == capped(node_size(rules_node(rules.deep_view()))),
{
    let ghost node = |rule: RuleView| rule_node(rule);
    let mut size: usize = NODE_SIZE;
    let mut i: usize = 0;
    assert(rules.deep_view().take(0).map_values(node) =~= Seq::empty());
    while i < rules.len()
        invariant
            i <= rules.len(),
            node == |rule: RuleView| rule_node(rule),
            size == capped(
                NODE_SIZE as nat + nodes_size(
                    rules.deep_view().take(i as int).map_values(node),
                ),
            ),
        decreases rules.len() - i,
    {
        proof {
            let seen = rules.deep_view().take(i as int);
            assert(rules.deep_view().take(i + 1) =~= seen.push(rules[i as int]@));
            assert(seen.push(rules[i as int]@).map_values(node) =~= seen.map_values(node).push(
                rule_node(rules[i as int]@),
            ));
            lemma_nodes_size_push(seen.map_values(node), rule_node(rules[i as int]@));
        }
        size = capped_sum(size, rule_size(&rules[i]));
        i += 1;
    }
    assert(rules.deep_view().take(rules.len() as int) =~= rules.deep_view());
    size
}

/// Builds the YAML value of a rule.
pub fn rule_value(rule: &LootRule) -> (value: serde_yaml::Value)
    ensures
        node_of(value) == rule_node(rule@),
{
    let mut entries: Vec<(serde_yaml::Value, serde_yaml::Value)> = Vec::new();
    entries.push((scalar("name"), scalar(rule.name.as_str())));
    if let Some(after) = &rule.after {
        entries.push((scalar("after"), scalar(after.as_str())));
    }
    if let Some(group) = &rule.group {
        entries.push((scalar("group"), scalar(group.as_str())));
    }
    proof {
        lemma_rule_keys_differ();
        let want = seq![text_entry("name"@, rule@.name)] + optional_entry("after"@, rule@.after)
            + optional_entry("group"@, rule@.group);
        assert(entry_nodes_of(entries@) =~= want);
        assert(distinct_text_keys(want));
    }
    mapping(entries)
}

/// Builds the YAML value of a rule list.
pub fn rules_value(rules: &Vec<LootRule>) -> (value: serde_yaml::Value)
    ensures
        node_of(value) == rules_node(rules.deep_view()),
{
    let mut items: Vec<serde_yaml::Value> = Vec::new();
    let mut i: usize = 0;
    while i < rules.len()
        invariant
            i <= rules.len(),
            nodes_of(items@) == rules.deep_view().take(i as int).map_values(
                |rule: RuleView| rule_node(rule),
            ),
        decreases rules.len() - i,
    {
        let item = rule_value(&rules[i]);
        proof {
            let node = |rule: RuleView| rule_node(rule);
            let seen = rules.deep_view().take(i as int);
            assert(rules.deep_view().take(i + 1) =~= seen.push(rules[i as int]@));
            assert(seen.push(rules[i as int]@).map_values(node) =~= seen.map_values(node).push(
                node_of(item),
            ));
            assert(nodes_of(items@.push(item)) =~= nodes_of(items@).push(node_of(item)));
        }
        items.push(item);
        i += 1;
    }
    assert(rules.deep_view().take(rules.len() as int) =~= rules.deep_view());
    sequence(items)
}

/// Builds the YAML value of a rule set.
pub fn document_value(rules: &RuleSet) -> (value: serde_yaml::Value)
    ensures
        node_of(value) == document_node(rules@),
{
    let mut entries: Vec<(serde_yaml::Value, serde_yaml::Value)> = Vec::new();
    entries.push((scalar("groups"), rules_value(&rules.groups)));
    entries.push((scalar("plugins"), rules_value(&rules.plugins)));
    proof {
        lemma_document_keys_differ();
        let want = seq![
            (YamlNode::Scalar("groups"@), rules_node(rules@.groups)),
            (YamlNode::Scalar("plugins"@), rules_node(rules@.plugins)),
        ];
        assert(entry_nodes_of(entries@) =~= want);
        assert(distinct_text_keys(want));
    }
    mapping(entries)
}

impl RuleSet {
    /// Tests whether the document of the rule set is at most of the largest
    /// size.
    pub fn fits(&self) -> (b: bool)
        ensures
            b == (rule_set_size(self@) <= MAX_DOCUMENT_SIZE),
    {
        proof {
            lemma_document_node(self@);
        }
        let groups = capped_sum(string_size("groups"), rule_list_size(&self.groups));
        let plugins = capped_sum(string_size("plugins"), rule_list_size(&self.plugins));
        capped_sum(capped_sum(NODE_SIZE, groups), plugins) <= MAX_DOCUMENT_SIZE
    }

    /// Writes the rule set as a YAML document.
    ///
    /// The text is the serializer's, which also chooses whether a string is
    /// written plainly or in quotes. It fails where the document is larger
    /// than the largest size, and where the serializer gives an error, whose
    /// message the failure then carries.
    pub fn to_yaml(&self) -> (result: Result<String, LootifierError>)
        ensures
            is_yaml_outcome(self@, result),
    {
        if !self.fits() {
            return Err(
                LootifierError::SerializationFailure(
                    "the document is too large for the YAML serializer".to_owned(),
                ),
            );
        }
        proof {
            lemma_document_node(self@);
        }
        match to_text(&document_value(self)) {
            Ok(text) => Ok(text),
            Err(error) => Err(LootifierError::serialization(&error)),
        }
    }
}

} // verus!
