use duroxide::runtime::registry::{
    ActivityRegistry, ActivityRegistryBuilder, OrchestrationRegistry, OrchestrationRegistryBuilder, VersionPolicy,
};
use duroxide::runtime::versions::{SemanticVersion, VersionOrder};

fn v(text: &str) -> SemanticVersion {
    SemanticVersion::parse(text).expect("a version")
}

fn texts(vs: &[SemanticVersion]) -> Vec<String> {
    vs.iter().map(|v| v.to_text()).collect()
}

#[test]
fn versions_parse_and_print_as_semver() {
    assert_eq!(v("1.2.3").to_text(), "1.2.3");
    assert_eq!(v("1.0.0-alpha.1+build.5").to_text(), "1.0.0-alpha.1+build.5");
    assert_eq!(SemanticVersion::new(2, 0, 1).to_text(), "2.0.1");
    assert!(SemanticVersion::parse("not-a-version").is_none());
    assert!(SemanticVersion::parse("1.0").is_none());
}

#[test]
fn versions_order_as_semver() {
    assert_eq!(v("1.0.0").compare(&v("2.0.0")), VersionOrder::Less);
    assert_eq!(v("1.10.0").compare(&v("1.9.0")), VersionOrder::Greater);
    assert_eq!(v("1.0.0-alpha").compare(&v("1.0.0")), VersionOrder::Less);
    assert_eq!(v("1.0.0-beta.11").compare(&v("1.0.0-beta.2")), VersionOrder::Greater);
    assert_eq!(v("1.2.3").compare(&v("1.2.3")), VersionOrder::Equal);
    assert!(v("1.2.3").same(&v("1.2.3")));
    assert!(!v("1.2.3").same(&v("1.2.3+b")));
    assert_eq!(v("1.2.3").clone().to_text(), "1.2.3");
}

#[test]
fn unversioned_registrations_are_version_one() {
    let reg: OrchestrationRegistry<u32> = OrchestrationRegistry::builder().register("greet".to_string(), 1).build();
    let (ver, h) = reg.resolve_handler("greet").expect("registered");
    assert_eq!(ver.to_text(), "1.0.0");
    assert_eq!(*h, 1);
    assert!(reg.resolve_handler("other").is_none());
}

#[test]
fn duplicate_registration_is_an_error() {
    let b: OrchestrationRegistryBuilder<u32> =
        OrchestrationRegistry::builder().register("greet".to_string(), 1).register("greet".to_string(), 2);
    match b.build_result() {
        Err(msg) => assert_eq!(msg, "duplicate orchestration registration: greet@1.0.0"),
        Ok(_) => panic!("expected an error"),
    }
}

#[test]
fn errors_are_joined() {
    let b: OrchestrationRegistryBuilder<u32> = OrchestrationRegistry::builder().register_all(vec![
        ("a".to_string(), 1),
        ("a".to_string(), 2),
        ("b".to_string(), 3),
        ("a".to_string(), 4),
    ]);
    let reg_errors = b.errors.clone();
    assert_eq!(
        reg_errors,
        vec![
            "duplicate orchestration registration: a@1.0.0".to_string(),
            "duplicate orchestration registration: a@1.0.0".to_string()
        ]
    );
    match b.build_result() {
        Err(msg) => assert_eq!(
            msg,
            "duplicate orchestration registration: a@1.0.0; duplicate orchestration registration: a@1.0.0"
        ),
        Ok(_) => panic!("expected errors"),
    }
}

#[test]
fn latest_policy_picks_the_highest_version() {
    let reg: OrchestrationRegistry<&str> = OrchestrationRegistry::builder()
        .register_versioned("flow".to_string(), "1.0.0", "v1")
        .register_versioned("flow".to_string(), "1.2.0", "v12")
        .register_versioned("flow".to_string(), "2.0.0-rc.1", "v2rc")
        .build();
    let (ver, h) = reg.resolve_handler("flow").unwrap();
    assert_eq!(ver.to_text(), "2.0.0-rc.1");
    assert_eq!(*h, "v2rc");
    assert_eq!(texts(&reg.list_orchestration_versions("flow")), vec!["1.0.0", "1.2.0", "2.0.0-rc.1"]);
    assert!(reg.list_orchestration_versions("none").is_empty());
}

#[test]
fn exact_policy_and_unpin() {
    let mut reg: OrchestrationRegistry<&str> = OrchestrationRegistry::builder()
        .register_versioned("flow".to_string(), "1.0.0", "v1")
        .register_versioned("flow".to_string(), "2.0.0", "v2")
        .set_policy("flow".to_string(), VersionPolicy::Exact(v("1.0.0")))
        .build();
    assert_eq!(reg.resolve_version("flow").unwrap().to_text(), "1.0.0");
    reg.set_version_policy("flow".to_string(), VersionPolicy::Exact(v("3.0.0")));
    assert!(reg.resolve_handler("flow").is_none());
    reg.unpin("flow".to_string());
    assert_eq!(reg.resolve_version("flow").unwrap().to_text(), "2.0.0");
    assert_eq!(*reg.resolve_handler_exact("flow", &v("1.0.0")).unwrap(), "v1");
    assert!(reg.resolve_handler_exact("flow", &v("1.5.0")).is_none());
}

#[test]
fn versions_must_rise() {
    let b: OrchestrationRegistryBuilder<&str> =
        OrchestrationRegistry::builder().register_versioned("flow".to_string(), "2.0.0", "v2");
    let (b, ok) = b.try_register_versioned("flow".to_string(), "1.0.0", "v1");
    assert!(!ok);
    let (b, ok) = b.try_register_versioned("flow".to_string(), "x.y", "bad");
    assert!(!ok);
    let (b, ok) = b.try_register_versioned("flow".to_string(), "2.0.0", "again");
    assert!(ok);
    assert_eq!(b.errors, vec!["duplicate orchestration registration: flow@2.0.0".to_string()]);
    let (b, ok) = b.try_register_versioned("flow".to_string(), "2.1.0", "v21");
    assert!(ok);
    let reg = b.build();
    assert_eq!(texts(&reg.list_orchestration_versions("flow")), vec!["2.0.0", "2.1.0"]);
}

#[test]
fn typed_registration_replaces() {
    let reg: OrchestrationRegistry<u32> = OrchestrationRegistry::builder()
        .register("a".to_string(), 1)
        .register_typed("a".to_string(), 2)
        .build();
    assert_eq!(*reg.resolve_handler("a").unwrap().1, 2);
}

#[test]
fn merge_keeps_existing_versions_and_reports_duplicates() {
    let base: OrchestrationRegistry<&str> = OrchestrationRegistry::builder()
        .register_versioned("x".to_string(), "1.0.0", "other-x1")
        .register_versioned("x".to_string(), "3.0.0", "other-x3")
        .register("y".to_string(), "other-y")
        .build();
    let b = OrchestrationRegistry::builder()
        .register_versioned("x".to_string(), "1.0.0", "mine-x1")
        .register_versioned("x".to_string(), "2.0.0", "mine-x2")
        .merge(base);
    let mut errors = b.errors.clone();
    errors.sort();
    assert_eq!(errors, vec!["duplicate orchestration in merge: x@1.0.0".to_string()]);
    let reg = b.build();
    assert_eq!(texts(&reg.list_orchestration_versions("x")), vec!["1.0.0", "2.0.0", "3.0.0"]);
    assert_eq!(*reg.resolve_handler_exact("x", &v("1.0.0")).unwrap(), "mine-x1");
    assert_eq!(*reg.resolve_handler_exact("x", &v("3.0.0")).unwrap(), "other-x3");
    assert_eq!(*reg.resolve_handler("y").unwrap().1, "other-y");
    let mut names = reg.list_orchestration_names();
    names.sort();
    assert_eq!(names, vec!["x".to_string(), "y".to_string()]);
}

#[test]
fn disjoint_merge_has_no_errors() {
    let other: OrchestrationRegistry<u32> = OrchestrationRegistry::builder().register("b".to_string(), 2).build();
    let b = OrchestrationRegistry::builder().register("a".to_string(), 1).merge(other);
    assert!(b.errors.is_empty());
    assert!(b.build_result().is_ok());
}

#[test]
fn builder_from_copies_orchestrations_not_policies() {
    let reg: OrchestrationRegistry<u32> = OrchestrationRegistry::builder()
        .register("a".to_string(), 1)
        .set_policy("a".to_string(), VersionPolicy::Exact(v("9.9.9")))
        .build();
    let extended = OrchestrationRegistry::builder_from(&reg).register("b".to_string(), 2).build();
    assert_eq!(*extended.resolve_handler("a").unwrap().1, 1);
    assert_eq!(*extended.resolve_handler("b").unwrap().1, 2);
}

#[test]
fn work_items_resolve_by_named_version_or_policy() {
    let reg: OrchestrationRegistry<&str> = OrchestrationRegistry::builder()
        .register_versioned("flow".to_string(), "1.0.0", "v1")
        .register_versioned("flow".to_string(), "2.0.0", "v2")
        .build();
    assert_eq!(*reg.resolve_for_item("flow", Some("1.0.0")).unwrap().1, "v1");
    assert_eq!(*reg.resolve_for_item("flow", None).unwrap().1, "v2");
    assert!(reg.resolve_for_item("flow", Some("5.0.0")).is_none());
    assert!(reg.resolve_for_item("flow", Some("garbage")).is_none());
}

#[test]
fn activity_registry_from_registry_copies_handlers() {
    let reg: ActivityRegistry<u32> =
        ActivityRegistry::builder().register("A".to_string(), 1).register("B".to_string(), 2).build();
    let copy = ActivityRegistryBuilder::from_registry(&reg).register("C".to_string(), 3).build();
    assert_eq!(copy.get("A"), Some(&1));
    assert_eq!(copy.get("C"), Some(&3));
    assert_eq!(copy.count(), 3);
    assert!(copy.has("B"));
    assert!(!copy.has("D"));
}

#[test]
fn registering_a_new_name_counts_once_and_a_repeat_replaces() {
    let b: ActivityRegistryBuilder<u32> = ActivityRegistry::builder().register("A".to_string(), 1);
    assert_eq!(b.register("B".to_string(), 2).build().count(), 2);
    let b: ActivityRegistryBuilder<u32> = ActivityRegistry::builder().register("A".to_string(), 1);
    let again = b.register("A".to_string(), 7).build();
    assert_eq!(again.count(), 1);
    assert_eq!(again.get("A"), Some(&7));
}

#[test]
fn listed_activity_names_hold_each_name_once() {
    let reg: ActivityRegistry<u32> = ActivityRegistry::builder()
        .register("activity1".to_string(), 1)
        .register("activity2".to_string(), 2)
        .register("activity1".to_string(), 3)
        .build();
    let names = reg.list_activity_names();
    assert_eq!(names, vec!["activity1".to_string(), "activity2".to_string()]);
    assert_eq!(names.len(), reg.count());
}
