use anxwritter::config_value::ConfigValue;
use anxwritter::error::{ErrorType, ValidationError};
use anxwritter::layering::{merge_configs, CascadeMode, ConfigStack};
use anxwritter::number::F64Bits;

fn cv(text: &str) -> ConfigValue {
    let v: serde_json::Value = serde_json::from_str(text).unwrap();
    to_cv(&v)
}

fn to_cv(v: &serde_json::Value) -> ConfigValue {
    match v {
        serde_json::Value::Null => ConfigValue::Null,
        serde_json::Value::Bool(b) => ConfigValue::Bool(*b),
        serde_json::Value::Number(n) => {
            if let Some(u) = n.as_u64() {
                ConfigValue::UInt(u)
            } else if let Some(i) = n.as_i64() {
                ConfigValue::Int(i)
            } else {
                ConfigValue::Num(F64Bits { bits: n.as_f64().unwrap().to_bits() })
            }
        }
        serde_json::Value::String(s) => ConfigValue::Str(s.clone()),
        serde_json::Value::Array(a) => ConfigValue::List(a.iter().map(to_cv).collect()),
        serde_json::Value::Object(m) => {
            ConfigValue::Object(m.iter().map(|(k, x)| (k.clone(), to_cv(x))).collect())
        }
    }
}

fn get<'a>(v: &'a ConfigValue, key: &str) -> Option<&'a ConfigValue> {
    match v {
        ConfigValue::Object(m) => m.iter().find(|(k, _)| k == key).map(|(_, x)| x),
        _ => None,
    }
}

fn items<'a>(v: &'a ConfigValue, key: &str) -> &'a [ConfigValue] {
    match get(v, key) {
        Some(ConfigValue::List(x)) => x.as_slice(),
        _ => &[],
    }
}

fn uint(v: Option<&ConfigValue>) -> Option<u64> {
    match v {
        Some(ConfigValue::UInt(n)) => Some(*n),
        _ => None,
    }
}

fn text(v: Option<&ConfigValue>) -> Option<&str> {
    match v {
        Some(ConfigValue::Str(s)) => Some(s.as_str()),
        _ => None,
    }
}

fn strings(v: &ConfigValue, key: &str) -> Vec<String> {
    items(v, key).iter().map(|x| text(Some(x)).unwrap().to_string()).collect()
}

fn has(conflicts: &[ValidationError], kind: ErrorType) -> bool {
    conflicts.iter().any(|e| e.error_type == kind)
}

#[test]
fn deep_merges_settings_across_layers() {
    let (cfg, _) = merge_configs(vec![
        cv(r#"{"settings": {"chart": {"rigorous": true}, "view": {"time_bar": true}}}"#),
        cv(r#"{"settings": {"chart": {"bg_filled": true}}}"#),
    ]);
    let s = get(&cfg, "settings").unwrap();
    let chart = get(s, "chart").unwrap();
    assert!(matches!(get(chart, "rigorous"), Some(ConfigValue::Bool(true))));
    assert!(matches!(get(chart, "bg_filled"), Some(ConfigValue::Bool(true))));
    assert!(matches!(get(get(s, "view").unwrap(), "time_bar"), Some(ConfigValue::Bool(true))));
}

#[test]
fn keyed_upsert_and_delete_by_name() {
    let (cfg, _) = merge_configs(vec![
        cv(r#"{"entity_types": [{"name": "Person", "icon_file": "adult"}, {"name": "Car"}]}"#),
        cv(r#"{"entity_types": [{"name": "Person", "color": 255}]}"#),
        cv(r#"{"cascade": {"mode": "delete"}, "entity_types": [{"name": "Car"}]}"#),
    ]);
    let types = items(&cfg, "entity_types");
    assert_eq!(types.len(), 1);
    let p = &types[0];
    assert_eq!(text(get(p, "name")), Some("Person"));
    assert_eq!(text(get(p, "icon_file")), Some("adult"));
    assert!(get(p, "color").is_some());
}

#[test]
fn wipe_clears_section_first() {
    let (cfg, _) = merge_configs(vec![
        cv(r#"{"source_types": ["A", "B"]}"#),
        cv(r#"{"cascade": {"mode": "wipe"}, "source_types": ["C"]}"#),
    ]);
    assert_eq!(strings(&cfg, "source_types"), vec!["C".to_string()]);
}

#[test]
fn lock_blocks_later_override_and_records_conflict() {
    let (cfg, conflicts) = merge_configs(vec![
        cv(r#"{"cascade": {"mode": "lock"}, "link_types": [{"name": "Calls", "color": 1}]}"#),
        cv(r#"{"link_types": [{"name": "Calls", "color": 999}]}"#),
    ]);
    assert_eq!(uint(get(&items(&cfg, "link_types")[0], "color")), Some(1));
    assert!(has(&conflicts, ErrorType::LockedOverride));
}

#[test]
fn leaf_lock_only_freezes_locked_field() {
    let (cfg, conflicts) = merge_configs(vec![
        cv(r#"{"cascade": {"mode": "lock"}, "entity_types": [{"name": "Person", "color": 1}]}"#),
        cv(r#"{"entity_types": [{"name": "Person", "color": 999, "icon_file": "adult"}]}"#),
    ]);
    let p = &items(&cfg, "entity_types")[0];
    assert_eq!(uint(get(p, "color")), Some(1));
    assert_eq!(text(get(p, "icon_file")), Some("adult"));
    assert!(has(&conflicts, ErrorType::LockedOverride));
}

#[test]
fn field_level_delete_resets_only_named_field() {
    let (cfg, conflicts) = merge_configs(vec![
        cv(r#"{"entity_types": [{"name": "Person", "icon_file": "adult", "color": 128}]}"#),
        cv(r#"{"cascade": {"mode": "delete"}, "entity_types": [{"name": "Person", "color": null}]}"#),
    ]);
    let p = &items(&cfg, "entity_types")[0];
    assert_eq!(text(get(p, "name")), Some("Person"));
    assert_eq!(text(get(p, "icon_file")), Some("adult"));
    assert!(get(p, "color").is_none());
    assert!(conflicts.is_empty());
}

#[test]
fn field_delete_with_nonnull_value_is_a_contract_error() {
    let (_cfg, conflicts) = merge_configs(vec![
        cv(r#"{"entity_types": [{"name": "Person", "color": 128}]}"#),
        cv(r#"{"cascade": {"mode": "delete"}, "entity_types": [{"name": "Person", "color": 5}]}"#),
    ]);
    assert!(has(&conflicts, ErrorType::DeleteContract));
}

#[test]
fn mode_override_beats_embedded_cascade() {
    let mut stack = ConfigStack::new();
    stack.apply(cv(r#"{"entity_types": [{"name": "Person"}, {"name": "Car"}]}"#));
    stack.apply_with(cv(r#"{"entity_types": [{"name": "Car"}]}"#), Some(CascadeMode::Delete), None);
    let (cfg, _) = stack.finish();
    let names: Vec<&str> = items(&cfg, "entity_types").iter().map(|e| text(get(e, "name")).unwrap()).collect();
    assert_eq!(names, vec!["Person"]);
}

#[test]
fn mode_override_none_honours_embedded_cascade() {
    let mut stack = ConfigStack::new();
    stack.apply(cv(r#"{"source_types": ["A", "B"]}"#));
    stack.apply_with(cv(r#"{"cascade": {"mode": "wipe"}, "source_types": ["C"]}"#), None, None);
    let (cfg, _) = stack.finish();
    assert_eq!(strings(&cfg, "source_types"), vec!["C".to_string()]);
}

#[test]
fn mode_override_can_downgrade_embedded_lock_to_merge() {
    let mut stack = ConfigStack::new();
    stack.apply_with(
        cv(r#"{"cascade": {"mode": "lock"}, "link_types": [{"name": "Calls", "color": 1}]}"#),
        Some(CascadeMode::Merge),
        None,
    );
    stack.apply(cv(r#"{"link_types": [{"name": "Calls", "color": 999}]}"#));
    let (cfg, conflicts) = stack.finish();
    assert_eq!(uint(get(&items(&cfg, "link_types")[0], "color")), Some(999));
    assert!(conflicts.is_empty());
}

#[test]
fn cascade_modes_match_python_kwargs_table() {
    let wipe = {
        let mut s = ConfigStack::new();
        s.apply(cv(r#"{"source_types": ["A", "B"]}"#));
        s.apply_with(cv(r#"{"source_types": ["C"]}"#), Some(CascadeMode::Wipe), None);
        strings(&s.finish().0, "source_types")
    };
    assert_eq!(wipe, vec!["C".to_string()]);
    let (lock_cfg, lock_conflicts) = {
        let mut s = ConfigStack::new();
        s.apply_with(cv(r#"{"entity_types": [{"name": "P", "color": 1}]}"#), Some(CascadeMode::Lock), None);
        s.apply_with(cv(r#"{"entity_types": [{"name": "P", "color": 2}]}"#), Some(CascadeMode::Merge), None);
        s.finish()
    };
    assert_eq!(uint(get(&items(&lock_cfg, "entity_types")[0], "color")), Some(1));
    assert!(has(&lock_conflicts, ErrorType::LockedOverride));
}

#[test]
fn locked_override_conflict_carries_both_sources() {
    let mut stack = ConfigStack::new();
    stack.apply_with(
        cv(r#"{"link_types": [{"name": "Calls", "color": 1}]}"#),
        Some(CascadeMode::Lock),
        Some("org-base/090@lock".to_string()),
    );
    stack.apply_with(
        cv(r#"{"link_types": [{"name": "Calls", "color": 999}]}"#),
        None,
        Some("tenant-override".to_string()),
    );
    let (_cfg, conflicts) = stack.finish();
    let c = conflicts
        .iter()
        .find(|e| e.error_type == ErrorType::LockedOverride)
        .expect("locked_override conflict");
    assert_eq!(c.config_source.as_deref(), Some("org-base/090@lock"));
    assert_eq!(c.source.as_deref(), Some("tenant-override"));
    assert_eq!(c.location, "link_types.Calls.color");
}

#[test]
fn delete_contract_conflict_carries_source() {
    let mut stack = ConfigStack::new();
    stack.apply(cv(r#"{"entity_types": [{"name": "Person", "color": 128}]}"#));
    stack.apply_with(
        cv(r#"{"entity_types": [{"name": "Person", "color": 5}]}"#),
        Some(CascadeMode::Delete),
        Some("bad-delete-layer".to_string()),
    );
    let (_cfg, conflicts) = stack.finish();
    let c = conflicts
        .iter()
        .find(|e| e.error_type == ErrorType::DeleteContract)
        .expect("delete_contract conflict");
    assert_eq!(c.source.as_deref(), Some("bad-delete-layer"));
}

#[test]
fn locked_override_message_names_leaf_and_entry() {
    let (_cfg, conflicts) = merge_configs(vec![
        cv(r#"{"cascade": {"mode": "lock"}, "link_types": [{"name": "Calls", "color": 1}]}"#),
        cv(r#"{"link_types": [{"name": "Calls", "color": 2}]}"#),
    ]);
    assert_eq!(conflicts.len(), 1);
    assert_eq!(conflicts[0].message, "attempt to change locked 'color' on 'Calls'");
    assert_eq!(conflicts[0].config_source, None);
}

#[test]
fn same_value_under_lock_is_no_conflict() {
    let (cfg, conflicts) = merge_configs(vec![
        cv(r#"{"cascade": {"mode": "lock"}, "link_types": [{"name": "Calls", "color": 1}]}"#),
        cv(r#"{"link_types": [{"name": "Calls", "color": 1, "width": 3}]}"#),
    ]);
    assert!(conflicts.is_empty());
    assert_eq!(uint(get(&items(&cfg, "link_types")[0], "width")), Some(3));
}

#[test]
fn source_types_skip_repeats_and_other_lists_append() {
    let (cfg, _) = merge_configs(vec![
        cv(r#"{"source_types": ["A"], "palettes": [{"name": "x"}]}"#),
        cv(r#"{"source_types": ["A", "B"], "palettes": [{"name": "x"}]}"#),
    ]);
    assert_eq!(strings(&cfg, "source_types"), vec!["A".to_string(), "B".to_string()]);
    assert_eq!(items(&cfg, "palettes").len(), 2);
}

#[test]
fn nested_leaf_paths_are_set_and_other_sections_replace() {
    let (cfg, _) = merge_configs(vec![
        cv(r#"{"entity_types": [{"name": "P", "style": {"a": 1}}], "strengths": {"x": 1}, "grades_one": [1]}"#),
        cv(r#"{"entity_types": [{"name": "P", "style": {"b": 2}}], "strengths": {"y": 2}, "grades_one": [2]}"#),
    ]);
    let style = get(&items(&cfg, "entity_types")[0], "style").unwrap();
    assert_eq!(uint(get(style, "a")), Some(1));
    assert_eq!(uint(get(style, "b")), Some(2));
    let st = get(&cfg, "strengths").unwrap();
    assert_eq!(uint(get(st, "x")), Some(1));
    assert_eq!(uint(get(st, "y")), Some(2));
    assert_eq!(items(&cfg, "grades_one").len(), 1);
    assert_eq!(uint(items(&cfg, "grades_one").first()), Some(2));
}

#[test]
fn delete_mode_removes_plain_sections() {
    let (cfg, _) = merge_configs(vec![
        cv(r#"{"strengths": {"x": 1}, "palettes": [{"name": "x"}]}"#),
        cv(r#"{"cascade": {"mode": "delete"}, "strengths": {}, "palettes": []}"#),
    ]);
    assert!(get(&cfg, "strengths").is_none());
    assert_eq!(items(&cfg, "palettes").len(), 0);
}
