use kiro_gateway::admin::model_mapping::{ModelMapping, ModelMappingManager, MODEL_MAPPINGS_FILE};
use kiro_gateway::openai::handlers::apply_model_mapping;
use kiro_gateway::openai::types::openai_model_to_kiro_model;

#[test]
fn resolve_is_case_insensitive_and_seeded_default() {
    let mut mgr = ModelMappingManager::new();
    mgr.upsert("gpt-5.5", "opus-4.8").unwrap();
    assert_eq!(mgr.resolve("gpt-5.5").as_deref(), Some("opus-4.8"));
    assert_eq!(mgr.resolve("GPT-5.5").as_deref(), Some("opus-4.8"));
    assert_eq!(mgr.resolve(" gpt-5.5 ").as_deref(), Some("opus-4.8"));
    assert_eq!(mgr.resolve("gpt-4o"), None);
}

#[test]
fn upsert_rejects_empty_and_updates_in_place() {
    let mut mgr = ModelMappingManager::new();
    assert!(mgr.upsert("", "x").is_err());
    assert!(mgr.upsert("gpt-5.5", "").is_err());
    mgr.upsert("gpt-5.4", "opus-4.8").unwrap();
    mgr.upsert("gpt-5.4", "sonnet-4.5").unwrap();
    assert_eq!(mgr.list().len(), 1);
    assert_eq!(mgr.resolve("gpt-5.4").as_deref(), Some("sonnet-4.5"));
}

#[test]
fn remove_and_replace_all() {
    let mut mgr = ModelMappingManager::new();
    mgr.upsert("a", "1").unwrap();
    mgr.upsert("b", "2").unwrap();
    assert!(mgr.remove("A"));
    assert!(!mgr.remove("A"));
    assert_eq!(mgr.list().len(), 1);
    mgr.replace_all(vec![
        ModelMapping {
            source: "x".into(),
            target: "10".into(),
        },
        ModelMapping {
            source: "  ".into(),
            target: "skip".into(),
        },
    ]);
    assert_eq!(mgr.list().len(), 1);
    assert_eq!(mgr.resolve("x").as_deref(), Some("10"));
}

#[test]
fn defaults_of_a_first_start() {
    let mgr = ModelMappingManager::with_defaults("family");
    assert_eq!(mgr.resolve("gpt-5.5").as_deref(), Some("family-opus-4.8"));
    assert_eq!(mgr.resolve("gpt-5.4").as_deref(), Some("family-opus-4.8"));
    assert_eq!(mgr.list().len(), 2);
}

#[test]
fn errors_name_the_empty_side() {
    let mut mgr = ModelMappingManager::new();
    assert_eq!(mgr.upsert("  ", "").unwrap_err(), "源模型名不能为空");
    assert_eq!(mgr.upsert(" a ", " ").unwrap_err(), "目标模型名不能为空");
    let entry = mgr.upsert(" A ", " b ").unwrap();
    assert_eq!(entry.source, "A");
    assert_eq!(entry.target, "b");
}

#[test]
fn lists_are_in_the_order_of_lower_case_names() {
    let mut mgr = ModelMappingManager::new();
    for name in ["b", "C", "a", "B2", "aa"] {
        mgr.upsert(name, "t").unwrap();
    }
    let names: Vec<String> = mgr.list().into_iter().map(|m| m.source).collect();
    assert_eq!(names, vec!["a", "aa", "b", "B2", "C"]);
}

#[test]
fn a_read_list_keeps_the_later_entry_and_drops_blank_names() {
    let mgr = ModelMappingManager::from_list(vec![
        ModelMapping { source: "X".into(), target: "1".into() },
        ModelMapping { source: " ".into(), target: "2".into() },
        ModelMapping { source: " x ".into(), target: "3".into() },
    ]);
    assert_eq!(mgr.list(), vec![ModelMapping { source: " x ".into(), target: "3".into() }]);
    assert_eq!(mgr.resolve("x").as_deref(), Some("3"));
    assert_eq!(mgr.resolve(" "), None);
}

#[test]
fn mapping_rewrites_only_known_names() {
    let mgr = ModelMappingManager::with_defaults("family");
    let mut model = "GPT-5.5".to_string();
    apply_model_mapping(Some(&mgr), &mut model);
    assert_eq!(model, "family-opus-4.8");
    let mut other = "gpt-4o".to_string();
    apply_model_mapping(Some(&mgr), &mut other);
    assert_eq!(other, "gpt-4o");
    apply_model_mapping(None, &mut other);
    assert_eq!(other, "gpt-4o");
}

#[test]
fn a_listed_mapping_is_read_back() {
    let mut mgr = ModelMappingManager::with_defaults("family");
    mgr.upsert(" X ", "y").unwrap();
    let again = ModelMappingManager::from_list(mgr.list());
    assert_eq!(again.list(), mgr.list());
    assert_eq!(again.resolve("x").as_deref(), Some("y"));
}

#[test]
fn mapped_models_serve_requests() {
    let mgr = ModelMappingManager::with_defaults("family");
    let mut model = "gpt-5.4".to_string();
    apply_model_mapping(Some(&mgr), &mut model);
    assert_eq!(openai_model_to_kiro_model(&model, "family"), "family-opus-4.8");
    assert_eq!(openai_model_to_kiro_model("gpt-5.4", "family"), "family-sonnet-4.5");
}

#[test]
fn the_default_mapping_is_empty() {
    let mut mgr = ModelMappingManager::default();
    assert!(mgr.list().is_empty());
    mgr.upsert("a", "1").unwrap();
    assert_eq!(mgr.resolve("a").as_deref(), Some("1"));
}

#[test]
fn the_mapping_has_a_file_name() {
    assert_eq!(MODEL_MAPPINGS_FILE, "model_mappings.json");
}
