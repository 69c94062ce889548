use locai::relationships::metrics::RelationshipMetrics;
use locai::search::scoring::DecayFunction;

#[test]
fn test_manual_inverse_detection() {
    let is_inverse = RelationshipMetrics::detect_manual_inverse("knows", "alice", "bob", "bob", "alice");
    assert!(is_inverse);

    let is_not_inverse =
        RelationshipMetrics::detect_manual_inverse("knows", "alice", "bob", "charlie", "dave");
    assert!(!is_not_inverse);
}

#[test]
fn test_decay_function_display() {
    assert_eq!(DecayFunction::NoDecay.to_string(), "none");
    assert_eq!(DecayFunction::Linear.to_string(), "linear");
    assert_eq!(DecayFunction::Exponential.to_string(), "exponential");
    assert_eq!(DecayFunction::Logarithmic.to_string(), "logarithmic");
}

use locai::json::JsonValue;
use locai::relationships::enforcement::{ConstraintEnforcer, EnforcementError};
use locai::relationships::metrics::MetricsSnapshot;
use locai::relationships::registry::{RegistryError, RelationshipTypeDef, RelationshipTypeRegistry};
use locai::relationships::types::{EventType, Relationship, RelationshipEvent, RelationshipImpact, RelationshipType};
use locai::time::F32Bits;

#[test]
fn test_register_new_type() {
    let mut registry = RelationshipTypeRegistry::new();
    let type_def = RelationshipTypeDef::new("custom_type".to_string()).unwrap();
    assert!(registry.register(type_def).is_ok());
}

#[test]
fn test_register_duplicate_fails() {
    let mut registry = RelationshipTypeRegistry::new();
    let type_def = RelationshipTypeDef::new("custom_type".to_string()).unwrap();
    registry.register(type_def.clone()).unwrap();
    assert!(registry.register(type_def).is_err());
}

#[test]
fn test_get_type() {
    let mut registry = RelationshipTypeRegistry::new();
    let type_def = RelationshipTypeDef::new("custom_type".to_string()).unwrap();
    registry.register(type_def.clone()).unwrap();

    let retrieved = registry.get("custom_type");
    assert!(retrieved.is_some());
    assert_eq!(retrieved.unwrap().name, "custom_type");
}

#[test]
fn test_get_nonexistent() {
    let registry = RelationshipTypeRegistry::new();
    assert!(registry.get("nonexistent").is_none());
}

#[test]
fn test_list_types() {
    let mut registry = RelationshipTypeRegistry::new();
    let type1 = RelationshipTypeDef::new("type1".to_string()).unwrap();
    let type2 = RelationshipTypeDef::new("type2".to_string()).unwrap();

    registry.register(type1).unwrap();
    registry.register(type2).unwrap();

    let list = registry.list();
    assert_eq!(list.len(), 2);
}

#[test]
fn test_delete_type() {
    let mut registry = RelationshipTypeRegistry::new();
    let type_def = RelationshipTypeDef::new("custom_type".to_string()).unwrap();
    registry.register(type_def).unwrap();
    assert!(registry.is_registered("custom_type"));

    assert!(registry.delete("custom_type").is_ok());
    assert!(!registry.is_registered("custom_type"));
}

#[test]
fn test_delete_nonexistent_fails() {
    let mut registry = RelationshipTypeRegistry::new();
    assert!(registry.delete("nonexistent").is_err());
}

#[test]
fn test_update_type() {
    let mut registry = RelationshipTypeRegistry::new();
    let mut type_def = RelationshipTypeDef::new("custom_type".to_string()).unwrap();
    registry.register(type_def.clone()).unwrap();

    type_def.symmetric = true;
    assert!(registry.update(type_def).is_ok());

    let retrieved = registry.get("custom_type").unwrap();
    assert!(retrieved.symmetric);
}

#[test]
fn test_seed_common_types() {
    let mut registry = RelationshipTypeRegistry::new();
    assert!(registry.seed_common_types().is_ok());
    assert!(registry.get("friendship").is_some());
    assert!(registry.get("rivalry").is_some());
}

#[test]
fn test_symmetric_type() {
    let type_def = RelationshipTypeDef::new("married_to".to_string()).unwrap().symmetric();
    assert!(type_def.symmetric);
}

#[test]
fn test_transitive_type() {
    let type_def = RelationshipTypeDef::new("part_of".to_string()).unwrap().transitive();
    assert!(type_def.transitive);
}

#[test]
fn test_with_inverse() {
    let type_def = RelationshipTypeDef::new("mentor".to_string()).unwrap().with_inverse("mentee".to_string());
    assert_eq!(type_def.inverse, Some("mentee".to_string()));
}

#[test]
fn test_invalid_type_name_empty() {
    let result = RelationshipTypeDef::new("".to_string());
    assert!(result.is_err());
}

#[test]
fn test_invalid_type_name_special_chars() {
    let result = RelationshipTypeDef::new("type@invalid".to_string());
    assert!(result.is_err());
}

#[test]
fn test_count() {
    let mut registry = RelationshipTypeRegistry::new();
    assert_eq!(registry.count(), 0);

    let type_def = RelationshipTypeDef::new("type1".to_string()).unwrap();
    registry.register(type_def).unwrap();
    assert_eq!(registry.count(), 1);
}

#[test]
fn registry_error_messages_and_blank_names() {
    match RelationshipTypeDef::new("   ".to_string()) {
        Err(e) => assert_eq!(e.to_string(), "Invalid type name: Type name cannot be empty"),
        Ok(_) => panic!("a blank name is refused"),
    }
    match RelationshipTypeDef::new("has space".to_string()) {
        Err(e) => assert_eq!(
            e,
            RegistryError::InvalidTypeName(
                "Type name can only contain alphanumeric characters, hyphens, and underscores".to_string()
            )
        ),
        Ok(_) => panic!("a space is refused"),
    }
    assert!(RelationshipTypeDef::new("caf\u{e9}-owner_2".to_string()).is_ok());

    let mut registry = RelationshipTypeRegistry::new();
    let d = RelationshipTypeDef::new("knows".to_string()).unwrap().with_inverse(" \t".to_string());
    assert_eq!(
        registry.register(d),
        Err(RegistryError::InvalidTypeName("Inverse type name cannot be empty".to_string()))
    );
    assert_eq!(registry.count(), 0);
    let d = RelationshipTypeDef::new("knows".to_string()).unwrap();
    registry.register(d.clone()).unwrap();
    assert_eq!(registry.register(d), Err(RegistryError::TypeAlreadyExists("knows".to_string())));
    assert_eq!(
        registry.delete("unknown").unwrap_err().to_string(),
        "Relationship type not found: unknown"
    );
    let other = RelationshipTypeDef::new("unknown".to_string()).unwrap();
    assert_eq!(registry.update(other), Err(RegistryError::TypeNotFound("unknown".to_string())));
}

#[test]
fn registry_seed_twice_and_names() {
    let mut registry = RelationshipTypeRegistry::new();
    let custom = RelationshipTypeDef::new("friendship".to_string()).unwrap().transitive();
    registry.register(custom).unwrap();
    registry.seed_common_types().unwrap();
    assert_eq!(registry.count(), 10);
    // a registered name keeps its own definition
    assert!(registry.get("friendship").unwrap().transitive);
    let mentorship = registry.get("mentorship").unwrap();
    assert_eq!(mentorship.inverse, Some("mentee".to_string()));
    assert!(!mentorship.symmetric);
    let category = &mentorship.custom_metadata;
    assert_eq!(category.len(), 1);
    assert_eq!(category[0].0, "category");
    assert_eq!(category[0].1.as_str(), Some("learning"));
    assert!(registry.get("family").unwrap().symmetric);

    registry.seed_common_types().unwrap();
    assert_eq!(registry.count(), 10);
    let mut names = registry.get_type_names();
    names.sort();
    assert_eq!(names.len(), 10);
    assert_eq!(names[0], "alliance");
    assert_eq!(names[9], "romance");

    registry.clear();
    assert_eq!(registry.count(), 0);
}

#[test]
fn registry_load_from_storage_replaces() {
    let mut registry = RelationshipTypeRegistry::new();
    registry.register(RelationshipTypeDef::new("a".to_string()).unwrap()).unwrap();
    let stored = vec![
        RelationshipTypeDef::new("a".to_string()).unwrap().symmetric(),
        RelationshipTypeDef::new("b".to_string()).unwrap(),
        RelationshipTypeDef::new("b".to_string()).unwrap().transitive(),
    ];
    assert_eq!(registry.load_from_storage(stored), 3);
    assert_eq!(registry.count(), 2);
    assert!(registry.get("a").unwrap().symmetric);
    assert!(registry.get("b").unwrap().transitive);
}

#[test]
fn type_def_metadata_and_default() {
    let d = RelationshipTypeDef::default();
    assert_eq!(d.name, "generic");
    assert_eq!(d.version, 1);
    let d = RelationshipTypeDef::new("t".to_string())
        .unwrap()
        .with_custom_metadata("z".to_string(), JsonValue::Bool(true))
        .with_custom_metadata("a".to_string(), JsonValue::Null)
        .with_custom_metadata("z".to_string(), JsonValue::Bool(false))
        .with_metadata_schema(JsonValue::Null);
    assert_eq!(d.custom_metadata.len(), 2);
    assert_eq!(d.custom_metadata[0].0, "a");
    assert!(matches!(d.custom_metadata[1].1, JsonValue::Bool(false)));
    assert!(d.metadata_schema.is_some());
}

#[test]
fn test_create_without_enforcement() {
    let registry = RelationshipTypeRegistry::new();
    let enforcer = ConstraintEnforcer::new(registry);

    let rel = Relationship::new("alice".to_string(), "bob".to_string()).unwrap();

    let result = enforcer.enforce_on_create(&rel, false).unwrap();
    assert!(!result.enforced);
    assert!(result.additional.is_empty());
    assert_eq!(result.enforcement_description, "Enforcement disabled");
}

#[test]
fn test_symmetric_enforcement() {
    let mut registry = RelationshipTypeRegistry::new();
    let sym_type = RelationshipTypeDef::new("married_to".to_string()).unwrap().symmetric();
    registry.register(sym_type).unwrap();

    let enforcer = ConstraintEnforcer::new(registry);

    let mut rel = Relationship::new("alice".to_string(), "bob".to_string()).unwrap();
    rel.relationship_type = RelationshipType::Romance;

    assert!(enforcer.is_symmetric(&rel.relationship_type.to_string()).is_err());
}

#[test]
fn test_validate_nonexistent_type() {
    let registry = RelationshipTypeRegistry::new();
    let enforcer = ConstraintEnforcer::new(registry);

    let result = enforcer.validate_type("nonexistent");
    assert!(result.is_err());
}

#[test]
fn enforcement_creates_symmetric_inverse() {
    let mut registry = RelationshipTypeRegistry::new();
    registry.register(RelationshipTypeDef::new("Romance".to_string()).unwrap().symmetric()).unwrap();
    registry.register(RelationshipTypeDef::new("Rivalry".to_string()).unwrap().with_inverse("rival_of".to_string())).unwrap();
    let enforcer = ConstraintEnforcer::new(registry);

    let mut rel = Relationship::new("alice".to_string(), "bob".to_string()).unwrap();
    rel.relationship_type = RelationshipType::Romance;
    let result = enforcer.enforce_on_create(&rel, true).unwrap();
    assert!(result.enforced);
    assert_eq!(result.additional.len(), 1);
    let inverse = &result.additional[0];
    assert_eq!(inverse.entity_a, "bob");
    assert_eq!(inverse.entity_b, "alice");
    assert_ne!(inverse.id, rel.id);
    assert_eq!(inverse.id.len(), 36);
    assert_eq!(result.primary.id, rel.id);
    assert_eq!(result.enforcement_description, "Created symmetric inverse relationship: alice \u{2194} bob");

    assert_eq!(enforcer.enforce_on_delete(&rel, true).unwrap(), vec![rel.id.clone()]);
    assert_eq!(enforcer.get_inverse_type("Rivalry").unwrap(), Some("rival_of".to_string()));
    assert_eq!(enforcer.is_transitive("Romance"), Ok(false));

    rel.relationship_type = RelationshipType::Rivalry;
    let result = enforcer.enforce_on_create(&rel, true).unwrap();
    assert!(result.additional.is_empty());
    assert_eq!(result.enforcement_description, "");

    rel.relationship_type = RelationshipType::Family;
    let err = enforcer.enforce_on_create(&rel, true).unwrap_err();
    assert_eq!(err, EnforcementError::TypeNotFound("Family".to_string()));
    assert_eq!(err.to_string(), "Type not found in registry: Family");
    assert!(enforcer.enforce_on_delete(&rel, true).is_err());
    assert_eq!(enforcer.enforce_on_delete(&rel, false).unwrap().len(), 1);

    let from_registry = EnforcementError::from(RegistryError::TypeNotFound("x".to_string()));
    assert_eq!(
        from_registry,
        EnforcementError::RegistryError("Relationship type not found: x".to_string())
    );
}

#[test]
fn test_record_symmetric_relationship() {
    let mut metrics = RelationshipMetrics::new();
    let type_def = RelationshipTypeDef::new("married".to_string()).unwrap().symmetric();

    metrics.record_relationship_created(&type_def, false);
    let snapshot = metrics.export_metrics();

    assert_eq!(snapshot.symmetric_relationships_created, 1);
    assert_eq!(snapshot.total_relationships_created, 1);
}

#[test]
fn test_record_transitive_relationship() {
    let mut metrics = RelationshipMetrics::new();
    let type_def = RelationshipTypeDef::new("part_of".to_string()).unwrap().transitive();

    metrics.record_relationship_created(&type_def, false);
    let snapshot = metrics.export_metrics();

    assert_eq!(snapshot.transitive_relationships_created, 1);
    assert_eq!(snapshot.total_relationships_created, 1);
}

#[test]
fn test_record_enforcement_enabled() {
    let mut metrics = RelationshipMetrics::new();
    let type_def = RelationshipTypeDef::new("custom".to_string()).unwrap();

    metrics.record_relationship_created(&type_def, true);
    let snapshot = metrics.export_metrics();

    assert_eq!(snapshot.enforcement_requests_enabled, 1);
    assert_eq!(snapshot.enforcement_requests_disabled, 0);
}

#[test]
fn test_record_enforcement_disabled() {
    let mut metrics = RelationshipMetrics::new();
    let type_def = RelationshipTypeDef::new("custom".to_string()).unwrap();

    metrics.record_relationship_created(&type_def, false);
    let snapshot = metrics.export_metrics();

    assert_eq!(snapshot.enforcement_requests_enabled, 0);
    assert_eq!(snapshot.enforcement_requests_disabled, 1);
}

#[test]
fn test_record_manual_inverse() {
    let mut metrics = RelationshipMetrics::new();
    metrics.record_manual_inverse_detected();
    metrics.record_manual_inverse_detected();

    let snapshot = metrics.export_metrics();
    assert_eq!(snapshot.manual_inverse_creates, 2);
}

#[test]
fn test_reset_metrics() {
    let mut metrics = RelationshipMetrics::new();
    let type_def = RelationshipTypeDef::new("custom".to_string()).unwrap();

    metrics.record_relationship_created(&type_def, true);
    let before = metrics.export_metrics();
    assert_eq!(before.total_relationships_created, 1);

    metrics.reset();
    let after = metrics.export_metrics();
    assert_eq!(after.total_relationships_created, 0);
    assert_eq!(after.enforcement_requests_enabled, 0);
}

#[test]
fn test_metrics_clone() {
    let mut metrics = RelationshipMetrics::new();
    let type_def = RelationshipTypeDef::new("custom".to_string()).unwrap();

    metrics.record_relationship_created(&type_def, true);

    let cloned = metrics.clone();
    let snapshot: MetricsSnapshot = cloned.export_metrics();

    assert_eq!(snapshot.total_relationships_created, 1);
}

#[test]
fn metrics_counters_wrap_and_balance() {
    let mut metrics = RelationshipMetrics::new();
    metrics.total_created = u64::MAX;
    metrics.enforcement_enabled = u64::MAX;
    let type_def = RelationshipTypeDef::new("custom".to_string()).unwrap();
    metrics.record_relationship_created(&type_def, true);
    assert_eq!(metrics.total_created, 0);
    assert_eq!(metrics.enforcement_enabled, 0);
    assert_eq!(metrics.enforcement_disabled, 0);
    assert_eq!(RelationshipMetrics::default(), RelationshipMetrics::new());
}

#[test]
fn relationship_entities_and_events() {
    let rel = Relationship::new("alice".to_string(), "bob".to_string()).unwrap();
    assert_eq!(rel.get_other_entity("alice"), Some("bob"));
    assert_eq!(rel.get_other_entity("bob"), Some("alice"));
    assert_eq!(rel.get_other_entity("carol"), None);
    assert!(rel.involves_entity("bob"));
    assert!(!rel.involves_entity("carol"));
    assert_eq!(rel.relationship_type, RelationshipType::Neutral);
    assert_eq!(rel.trust_level.bits, 0.5f32.to_bits());
    assert_eq!(rel.familiarity.bits, 0.1f32.to_bits());
    assert_eq!(rel.intensity.bits, 0.0f32.to_bits());
    assert_eq!(RelationshipType::Competition.to_string(), "Competition");
}

#[test]
fn test_validate_existing_type() {
    let mut registry = RelationshipTypeRegistry::new();
    let type_def = RelationshipTypeDef::new("custom".to_string()).unwrap();
    registry.register(type_def).unwrap();

    let enforcer = ConstraintEnforcer::new(registry);

    let result = enforcer.validate_type("custom");
    assert!(result.is_ok());
    assert_eq!(result.unwrap().name, "custom");
}

#[test]
fn test_delete_without_enforcement() {
    let registry = RelationshipTypeRegistry::new();
    let enforcer = ConstraintEnforcer::new(registry);

    let rel = Relationship::new("alice".to_string(), "bob".to_string()).unwrap();

    let to_delete = enforcer.enforce_on_delete(&rel, false).unwrap();
    assert_eq!(to_delete.len(), 1);
    assert_eq!(to_delete[0], rel.id);
}

#[test]
fn test_is_symmetric() {
    let mut registry = RelationshipTypeRegistry::new();
    let sym_type = RelationshipTypeDef::new("married".to_string()).unwrap().symmetric();
    registry.register(sym_type).unwrap();

    let enforcer = ConstraintEnforcer::new(registry);

    let is_sym = enforcer.is_symmetric("married").unwrap();
    assert!(is_sym);

    let is_asym = enforcer.is_symmetric("nonexistent");
    assert!(is_asym.is_err());
}

#[test]
fn test_is_transitive() {
    let mut registry = RelationshipTypeRegistry::new();
    let trans_type = RelationshipTypeDef::new("part_of".to_string()).unwrap().transitive();
    registry.register(trans_type).unwrap();

    let enforcer = ConstraintEnforcer::new(registry);

    let is_trans = enforcer.is_transitive("part_of").unwrap();
    assert!(is_trans);
}

#[test]
fn test_get_inverse_type() {
    let mut registry = RelationshipTypeRegistry::new();
    let rel_type = RelationshipTypeDef::new("mentor".to_string()).unwrap().with_inverse("mentee".to_string());
    registry.register(rel_type).unwrap();

    let enforcer = ConstraintEnforcer::new(registry);

    let inverse = enforcer.get_inverse_type("mentor").unwrap();
    assert_eq!(inverse, Some("mentee".to_string()));
}

#[test]
fn impact_effect_reads_float_bits() {
    let bits = |x: f32| F32Bits { bits: x.to_bits() };
    let quiet = RelationshipImpact {
        intensity_change: bits(0.005),
        trust_change: bits(-0.01),
        familiarity_change: bits(0.0),
        relationship_type_shift: None,
    };
    assert!(!quiet.has_relationship_effect());
    let negative = RelationshipImpact { trust_change: bits(-0.5), ..quiet };
    assert!(negative.has_relationship_effect());
    let nan = RelationshipImpact { intensity_change: bits(f32::NAN), ..quiet };
    assert!(!nan.has_relationship_effect());
    let shifted = RelationshipImpact { relationship_type_shift: Some(RelationshipType::Friendship), ..quiet };
    assert!(shifted.has_relationship_effect());
    let infinite = RelationshipImpact { familiarity_change: bits(f32::INFINITY), ..quiet };
    assert!(infinite.has_relationship_effect());
}

#[test]
fn recent_events_cover_the_last_hours() {
    let zero = F32Bits { bits: 0 };
    let impact = RelationshipImpact {
        intensity_change: zero,
        trust_change: zero,
        familiarity_change: zero,
        relationship_type_shift: None,
    };
    let mut rel = Relationship::new("alice".to_string(), "bob".to_string()).unwrap();
    let mut old = RelationshipEvent::new(EventType::Support, "long ago".to_string(), impact, String::new()).unwrap();
    old.timestamp.secs -= 10 * 3600;
    rel.add_event(old);
    rel.add_event(RelationshipEvent::new(EventType::Support, "just now".to_string(), impact, String::new()).unwrap());
    let recent = rel.get_recent_events(1);
    assert_eq!(recent.len(), 1);
    assert_eq!(recent[0].description, "just now");
    assert_eq!(rel.get_recent_events(24).len(), 2);
}

#[test]
fn family_markers_come_from_metadata_or_events() {
    let zero = F32Bits { bits: 0 };
    let impact = RelationshipImpact {
        intensity_change: zero,
        trust_change: zero,
        familiarity_change: zero,
        relationship_type_shift: None,
    };
    let mut rel = Relationship::new("alice".to_string(), "bob".to_string()).unwrap();
    assert!(!rel.has_family_markers());
    rel.add_event(RelationshipEvent::new(EventType::Support, "Met her SIBLING".to_string(), impact, String::new()).unwrap());
    assert!(rel.has_family_markers());
    rel.metadata = vec![("family_relation".to_string(), JsonValue::Bool(false))];
    assert!(!rel.has_family_markers());
    rel.metadata = vec![("family_relation".to_string(), JsonValue::Bool(true))];
    assert!(rel.has_family_markers());
    rel.metadata = vec![("family_relation".to_string(), JsonValue::String("yes".to_string()))];
    assert!(!rel.has_family_markers());
}

use locai::relationships::dynamics::{AllianceType, ConflictType, GroupDynamicsAnalyzer};

fn rel(a: &str, b: &str, kind: RelationshipType, intensity: f32, trust: f32) -> Relationship {
    let mut r = Relationship::new(a.to_string(), b.to_string()).unwrap();
    r.relationship_type = kind;
    r.intensity = F32Bits { bits: intensity.to_bits() };
    r.trust_level = F32Bits { bits: trust.to_bits() };
    r
}

#[test]
fn strong_allies_and_alliances() {
    let rels = vec![
        rel("alice", "bob", RelationshipType::Friendship, 0.8, 0.9),
        rel("carol", "alice", RelationshipType::Family, 0.6, 0.7),
        rel("alice", "dave", RelationshipType::Rivalry, 0.5, 0.9),
        rel("erin", "frank", RelationshipType::Romance, 0.9, 0.95),
    ];
    assert_eq!(GroupDynamicsAnalyzer::get_strong_allies("alice", &rels), vec!["bob".to_string(), "carol".to_string()]);
    assert!(GroupDynamicsAnalyzer::get_strong_allies("dave", &rels).is_empty());
    let entities: Vec<String> = ["alice", "bob", "erin", "frank"].iter().map(|s| s.to_string()).collect();
    let groups = GroupDynamicsAnalyzer::alliance_groups(&rels, &entities);
    assert_eq!(
        groups,
        vec![
            ("alice".to_string(), vec!["bob".to_string(), "carol".to_string()]),
            ("erin".to_string(), vec!["frank".to_string()]),
        ]
    );
    let members = vec!["bob".to_string(), "carol".to_string()];
    assert_eq!(GroupDynamicsAnalyzer::determine_alliance_type("alice", &members, &rels), AllianceType::Friendship);
    assert_eq!(
        GroupDynamicsAnalyzer::determine_alliance_type("erin", &["frank".to_string()], &rels),
        AllianceType::Romance
    );
    assert_eq!(GroupDynamicsAnalyzer::find_relationship("bob", "alice", &rels).unwrap().entity_a, "alice");
    assert!(GroupDynamicsAnalyzer::find_relationship("bob", "erin", &rels).is_none());
}

#[test]
fn conflicts_are_recognised_and_explained() {
    let zero = F32Bits { bits: 0 };
    let impact = RelationshipImpact {
        intensity_change: zero,
        trust_change: zero,
        familiarity_change: zero,
        relationship_type_shift: None,
    };
    let mut hostile = rel("a", "b", RelationshipType::Professional, -0.5, 0.9);
    assert!(GroupDynamicsAnalyzer::is_conflict(&hostile));
    assert!(GroupDynamicsAnalyzer::is_conflict(&rel("a", "b", RelationshipType::Neutral, -0.1, 0.3)));
    assert!(!GroupDynamicsAnalyzer::is_conflict(&rel("a", "b", RelationshipType::Neutral, -0.1, 0.5)));
    assert!(!GroupDynamicsAnalyzer::is_conflict(&rel("a", "b", RelationshipType::Neutral, f32::NAN, 0.1)));
    assert_eq!(GroupDynamicsAnalyzer::identify_conflict_source(&hostile), "Unknown conflict source");
    hostile.add_event(RelationshipEvent::new(EventType::Betrayal, "b".to_string(), impact, String::new()).unwrap());
    for _ in 0..4 {
        hostile.add_event(RelationshipEvent::new(EventType::Support, "s".to_string(), impact, String::new()).unwrap());
    }
    assert_eq!(GroupDynamicsAnalyzer::identify_conflict_source(&hostile), "Betrayal");
    hostile.add_event(RelationshipEvent::new(EventType::Support, "s".to_string(), impact, String::new()).unwrap());
    assert_eq!(GroupDynamicsAnalyzer::identify_conflict_source(&hostile), "Unknown conflict source");
    assert_eq!(GroupDynamicsAnalyzer::determine_conflict_type(&hostile), ConflictType::Professional);
    hostile.metadata = vec![("conflict_type".to_string(), JsonValue::String("Resource".to_string()))];
    assert_eq!(GroupDynamicsAnalyzer::determine_conflict_type(&hostile), ConflictType::Resource);
    hostile.metadata = vec![("conflict_type".to_string(), JsonValue::String("war".to_string()))];
    assert_eq!(GroupDynamicsAnalyzer::determine_conflict_type(&hostile), ConflictType::Personal);
}
