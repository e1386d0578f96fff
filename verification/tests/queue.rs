use s4::{Apps, Error, PlatformId, StrMap, StrSet, System, VariationId};

fn system(platform: &str, variation: Option<&str>) -> System {
    System { platform: PlatformId::new(platform), variation: variation.map(VariationId::new) }
}

fn inventory() -> (StrMap<String, System>, StrMap<String, StrSet<String>>) {
    let mut systems: StrMap<String, System> = StrMap::new();
    systems.insert("a".to_string(), system("plat1", Some("var1")));
    systems.insert("b".to_string(), system("plat1", Some("var2")));
    systems.insert("c".to_string(), system("plat2", None));
    let mut pool_a: StrSet<String> = StrSet::new();
    pool_a.insert("a".to_string());
    pool_a.insert("b".to_string());
    let mut pools: StrMap<String, StrSet<String>> = StrMap::new();
    pools.insert("poolA".to_string(), pool_a);
    (systems, pools)
}

#[test]
fn pools_come_before_systems() {
    let (systems, pools) = inventory();
    let found = Apps::machine_queue_match_system(&PlatformId::new("plat1"), None, &systems, &pools);
    assert_eq!(found, Ok(vec!["poolA".to_string(), "a".to_string(), "b".to_string()]));
}

#[test]
fn single_system_matches() {
    let (systems, pools) = inventory();
    let found = Apps::machine_queue_match_system(&PlatformId::new("plat2"), None, &systems, &pools);
    assert_eq!(found, Ok(vec!["c".to_string()]));
}

#[test]
fn unknown_platform_is_named() {
    let (systems, pools) = inventory();
    let found = Apps::machine_queue_match_system(&PlatformId::new("plat3"), None, &systems, &pools);
    assert_eq!(found, Err(Error::NoMatchingSystem("plat3".to_string(), None)));
    let var = VariationId::new("var9");
    let found = Apps::machine_queue_match_system(&PlatformId::new("plat1"), Some(&var), &systems, &pools);
    assert_eq!(found, Err(Error::NoMatchingSystem("plat1".to_string(), Some("var9".to_string()))));
}

#[test]
fn variation_narrows_the_match() {
    let (systems, pools) = inventory();
    let var = VariationId::new("var2");
    let found = Apps::machine_queue_match_system(&PlatformId::new("plat1"), Some(&var), &systems, &pools);
    // poolA holds a, which does not serve var2, so the pool is no candidate
    assert_eq!(found, Ok(vec!["b".to_string()]));
    // a system without variation serves no request for one
    let found = Apps::machine_queue_match_system(&PlatformId::new("plat2"), Some(&var), &systems, &pools);
    assert_eq!(found, Err(Error::NoMatchingSystem("plat2".to_string(), Some("var2".to_string()))));
}

#[test]
fn later_pools_come_first() {
    let (systems, mut pools) = inventory();
    let mut only_b: StrSet<String> = StrSet::new();
    only_b.insert("b".to_string());
    pools.insert("poolB".to_string(), only_b);
    let mut with_c: StrSet<String> = StrSet::new();
    with_c.insert("a".to_string());
    with_c.insert("c".to_string());
    pools.insert("poolC".to_string(), with_c);
    let found = Apps::machine_queue_match_system(&PlatformId::new("plat1"), None, &systems, &pools);
    assert_eq!(
        found,
        Ok(vec!["poolB".to_string(), "poolA".to_string(), "a".to_string(), "b".to_string()])
    );
}

#[test]
fn systems_report_is_read_by_heading() {
    let report = "sel4_plat\tother\tname\nplat1:var1\tx\ta\nplat2\ty\tc\nshort\n";
    let systems = Apps::machine_queue_systems(report);
    assert_eq!(systems.len(), 2);
    assert_eq!(systems.get("a"), Some(&system("plat1", Some("var1"))));
    assert_eq!(systems.get("c"), Some(&system("plat2", None)));
    assert_eq!(systems.get("short"), None);
}

#[test]
fn systems_report_keeps_the_last_of_a_name() {
    let report = "name\tsel4_plat\na\tplat1\na\tplat2:v:w";
    let systems = Apps::machine_queue_systems(report);
    assert_eq!(systems.len(), 1);
    assert_eq!(systems.get("a"), Some(&system("plat2", Some("v:w"))));
}

#[test]
fn pools_report_lists_members() {
    let report = "  poolA\ta\tb\npoolB\tc \n\n";
    let pools = Apps::machine_queue_pools(report);
    assert_eq!(pools.len(), 2);
    let pool_a = pools.get("poolA").unwrap();
    assert!(pool_a.contains("a") && pool_a.contains("b") && !pool_a.contains("c"));
    assert_eq!(pool_a.len(), 2);
    let pool_b = pools.get("poolB").unwrap();
    assert!(pool_b.contains("c"));
    assert_eq!(pool_b.len(), 1);
}

#[test]
fn report_to_candidates() {
    let systems = Apps::machine_queue_systems("name\tsel4_plat\na\tplat1:var1\nb\tplat1:var2\nc\tplat2");
    let pools = Apps::machine_queue_pools("poolA\ta\tb\n");
    let found = Apps::machine_queue_match_system(&PlatformId::new("plat1"), None, &systems, &pools);
    assert_eq!(found, Ok(vec!["poolA".to_string(), "a".to_string(), "b".to_string()]));
}
