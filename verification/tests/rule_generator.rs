use lootifier::document::{document_value, rule_value, rules_value};
use lootifier::yaml::MAX_DOCUMENT_SIZE;
use lootifier::{LootRule, Lootifier, LootifierError, RuleSet};

fn strings(items: &[&str]) -> Vec<String> {
    items.iter().map(|item| item.to_string()).collect()
}

fn group_rule(name: &str, after: &str) -> LootRule {
    LootRule { name: name.to_string(), after: Some(after.to_string()), group: None }
}

fn plugin_rule(name: &str) -> LootRule {
    LootRule { name: name.to_string(), after: None, group: Some(name.to_string()) }
}

#[test]
fn escape_string_doubles_single_quotes() {
    assert_eq!(Lootifier::escape_string("O'Brien.esp"), "O''Brien.esp");
    assert_eq!(Lootifier::escape_string("'"), "''");
    assert_eq!(Lootifier::escape_string("''a'"), "''''a''");
}

#[test]
fn escape_string_leaves_other_names_alone() {
    assert_eq!(Lootifier::escape_string(""), "");
    assert_eq!(Lootifier::escape_string("A.esp"), "A.esp");
    assert_eq!(Lootifier::escape_string("a\"b`c"), "a\"b`c");
}

#[test]
fn escaped_name_reads_back_as_single_quoted_scalar() {
    for name in ["O'Brien.esp", "'", "''", "a''b'", "plain.esp", "it's 'so'"] {
        let escaped = Lootifier::escape_string(name);
        let scalar = format!("'{}'", escaped);
        let decoded: String = serde_yaml::from_str(&scalar).unwrap();
        assert_eq!(decoded, name);
    }
}

#[test]
fn group_rules_of_no_name_or_one_name_are_none() {
    assert_eq!(Lootifier::generate_group_rules(&[]), Vec::<LootRule>::new());
    assert_eq!(Lootifier::generate_group_rules(&strings(&["A.esp"])), Vec::<LootRule>::new());
}

#[test]
fn group_rules_chain_each_name_after_the_one_before() {
    let names = strings(&["A.esm", "B.esm", "C.esp", "D.esp"]);
    let rules = Lootifier::generate_group_rules(&names);
    assert_eq!(rules.len(), names.len() - 1);
    for (i, rule) in rules.iter().enumerate() {
        assert_eq!(rule.name, names[i + 1]);
        assert_eq!(rule.after.as_ref(), Some(&names[i]));
        assert_eq!(rule.group, None);
    }
}

#[test]
fn plugin_rules_put_each_name_into_its_own_group() {
    let names = strings(&["A.esm", "B.esm", "B.esm"]);
    let rules = Lootifier::generate_plugin_rules(&names);
    assert_eq!(rules.len(), names.len());
    for (i, rule) in rules.iter().enumerate() {
        assert_eq!(rule.name, names[i]);
        assert_eq!(rule.group.as_ref(), Some(&rule.name));
        assert_eq!(rule.after, None);
    }
    assert_eq!(Lootifier::generate_plugin_rules(&[]), Vec::<LootRule>::new());
}

#[test]
fn single_plugin_has_one_plugin_rule_and_no_group_rule() {
    let rules = Lootifier::from_string("A.esp").rule_set();
    assert_eq!(rules.groups, Vec::<LootRule>::new());
    assert_eq!(rules.plugins, vec![plugin_rule("A.esp")]);
}

#[test]
fn three_plugins_have_two_group_rules_and_three_plugin_rules() {
    let rules = Lootifier::from_string("A.esm\nB.esm\nC.esp").rule_set();
    assert_eq!(rules.groups, vec![group_rule("B.esm", "A.esm"), group_rule("C.esp", "B.esm")]);
    assert_eq!(
        rules.plugins,
        vec![plugin_rule("A.esm"), plugin_rule("B.esm"), plugin_rule("C.esp")]
    );
}

#[test]
fn rule_set_escapes_the_names() {
    let rules = Lootifier::from_string("O'Brien.esp\nB.esp").rule_set();
    assert_eq!(rules.groups, vec![group_rule("B.esp", "O''Brien.esp")]);
    assert_eq!(rules.plugins, vec![plugin_rule("O''Brien.esp"), plugin_rule("B.esp")]);
}

#[test]
fn rule_set_of_empty_load_order_is_empty() {
    let rules = Lootifier::from_string("# c\n// c\n\n").rule_set();
    assert_eq!(rules, RuleSet { groups: vec![], plugins: vec![] });
}

#[test]
fn generate_rules_of_single_plugin() {
    let text = Lootifier::from_string("A.esp").generate_rules().unwrap();
    assert_eq!(text, "groups: []\nplugins:\n- name: A.esp\n  group: A.esp\n");
}

#[test]
fn generate_rules_of_three_plugins() {
    let text = Lootifier::from_string("A.esm\nB.esm\nC.esp").generate_rules().unwrap();
    let expected = "groups:\n\
                    - name: B.esm\n  after: A.esm\n\
                    - name: C.esp\n  after: B.esm\n\
                    plugins:\n\
                    - name: A.esm\n  group: A.esm\n\
                    - name: B.esm\n  group: B.esm\n\
                    - name: C.esp\n  group: C.esp\n";
    assert_eq!(text, expected);
}

#[test]
fn generate_rules_twice_gives_the_same_text() {
    let order = Lootifier::from_string("A.esm\n# c\nO'Brien.esp\n  C.esp  \n123\n");
    let first = order.generate_rules().unwrap();
    let second = order.generate_rules().unwrap();
    assert_eq!(first, second);
    let again = Lootifier::from_string("A.esm\n# c\nO'Brien.esp\n  C.esp  \n123\n");
    assert_eq!(again.generate_rules().unwrap(), first);
}

#[test]
fn generate_rules_reads_back_as_the_rule_set() {
    let order = Lootifier::from_string("A.esm\nO'Brien.esp\n123\ntrue\n- x: [y]\n");
    let text = order.generate_rules().unwrap();
    let read: serde_yaml::Value = serde_yaml::from_str(&text).unwrap();
    assert_eq!(read, document_value(&order.rule_set()));
}

#[test]
fn to_yaml_omits_absent_fields() {
    let rules = RuleSet {
        groups: vec![LootRule { name: "A".to_string(), after: None, group: None }],
        plugins: vec![LootRule {
            name: "B".to_string(),
            after: Some("A".to_string()),
            group: Some("G".to_string()),
        }],
    };
    let text = rules.to_yaml().unwrap();
    assert_eq!(text, "groups:\n- name: A\nplugins:\n- name: B\n  after: A\n  group: G\n");
}

#[test]
fn rule_value_is_a_mapping_in_field_order() {
    let value = rule_value(&group_rule("B.esm", "A.esm"));
    let mapping = value.as_mapping().unwrap();
    let entries: Vec<(&str, &str)> =
        mapping.iter().map(|(k, v)| (k.as_str().unwrap(), v.as_str().unwrap())).collect();
    assert_eq!(entries, vec![("name", "B.esm"), ("after", "A.esm")]);

    let value = rule_value(&plugin_rule("A.esm"));
    let mapping = value.as_mapping().unwrap();
    let entries: Vec<(&str, &str)> =
        mapping.iter().map(|(k, v)| (k.as_str().unwrap(), v.as_str().unwrap())).collect();
    assert_eq!(entries, vec![("name", "A.esm"), ("group", "A.esm")]);
}

#[test]
fn rules_value_is_a_sequence_of_the_rules() {
    let rules = vec![plugin_rule("A"), plugin_rule("B")];
    let value = rules_value(&rules);
    let items = value.as_sequence().unwrap();
    assert_eq!(items.len(), 2);
    assert_eq!(items[0], rule_value(&rules[0]));
    assert_eq!(items[1], rule_value(&rules[1]));
    assert_eq!(rules_value(&vec![]), serde_yaml::Value::Sequence(vec![]));
}

#[test]
fn document_value_holds_groups_then_plugins() {
    let rules = Lootifier::from_string("A\nB").rule_set();
    let value = document_value(&rules);
    let mapping = value.as_mapping().unwrap();
    let keys: Vec<&str> = mapping.keys().map(|k| k.as_str().unwrap()).collect();
    assert_eq!(keys, vec!["groups", "plugins"]);
    assert_eq!(mapping.get("groups"), Some(&rules_value(&rules.groups)));
    assert_eq!(mapping.get("plugins"), Some(&rules_value(&rules.plugins)));
}

#[test]
fn ordinary_rule_sets_fit() {
    assert!(Lootifier::from_string("A.esp\nB.esp").rule_set().fits());
    assert!(RuleSet { groups: vec![], plugins: vec![] }.fits());
}

#[test]
fn document_of_the_largest_size_fits_and_one_byte_more_does_not() {
    // Every node counts for 16: the document, its two keys, its two lists,
    // the rule, the key `name` and the name. The keys have 6, 7 and 4
    // bytes, the name has the rest.
    let nodes = 8 * 16;
    let keys = 6 + 7 + 4;
    let mut rules = RuleSet {
        groups: vec![],
        plugins: vec![LootRule {
            name: "a".repeat(MAX_DOCUMENT_SIZE - nodes - keys),
            after: None,
            group: None,
        }],
    };
    assert!(rules.fits());
    rules.plugins[0].name.push('a');
    assert!(!rules.fits());
    assert_eq!(
        rules.to_yaml(),
        Err(LootifierError::SerializationFailure(
            "the document is too large for the YAML serializer".to_string()
        ))
    );
}

#[test]
fn size_counts_every_field_of_every_rule() {
    // The document, its keys and lists: 5 nodes, 13 bytes. Each rule: the
    // rule, two keys and two strings, 5 nodes, and the keys' 9 bytes.
    let fixed = 5 * 16 + 13 + 2 * (5 * 16 + 9);
    let half = (MAX_DOCUMENT_SIZE - fixed) / 4;
    let mut rules = RuleSet {
        groups: vec![LootRule {
            name: "n".repeat(half),
            after: Some("o".repeat(half)),
            group: None,
        }],
        plugins: vec![LootRule {
            name: "n".repeat(half),
            after: None,
            group: Some("o".repeat(half)),
        }],
    };
    assert!(rules.fits());
    rules.groups[0].group = Some(String::new());
    assert!(!rules.fits());
    rules.groups[0].group = None;
    rules.plugins[0].after = Some(String::new());
    assert!(!rules.fits());
    rules.plugins[0].after = None;
    assert!(rules.fits());
    rules.plugins.push(LootRule { name: String::new(), after: None, group: None });
    assert!(!rules.fits());
}

#[test]
fn serialization_failure_carries_the_serializers_message() {
    let error = serde_yaml::from_str::<u32>("not a number").unwrap_err();
    let failure = LootifierError::serialization(&error);
    assert_eq!(failure, LootifierError::SerializationFailure(error.to_string()));
    assert_eq!(failure.message(), error.to_string());
    assert!(!failure.message().is_empty());
}

#[test]
fn error_message_is_the_message_carried() {
    let errors = [
        LootifierError::SourceUnreadable("no such file".to_string()),
        LootifierError::DestinationUnwritable("read-only".to_string()),
        LootifierError::SerializationFailure("bad value".to_string()),
    ];
    let messages: Vec<String> = errors.iter().map(|error| error.message()).collect();
    assert_eq!(messages, strings(&["no such file", "read-only", "bad value"]));
}
