use s4::{
    Error, Flag, FlagId, Identifier, Merge, NamedMap, Platform, PlatformId, Requirement,
    Sel4Architecture, Setting, StrMap, StrSet, Value, Variation, VariationId,
};

#[test]
fn map_keeps_its_keys_in_order() {
    let mut map: StrMap<String, u32> = StrMap::new();
    assert_eq!(map.len(), 0);
    map.insert("pear".to_string(), 1);
    map.insert("apple".to_string(), 2);
    map.insert("zebra".to_string(), 3);
    map.insert("fig".to_string(), 4);
    assert_eq!(map.len(), 4);
    let keys: Vec<&str> = (0..map.len()).map(|i| map.key(i).as_str()).collect();
    assert_eq!(keys, vec!["apple", "fig", "pear", "zebra"]);
    let values: Vec<u32> = (0..map.len()).map(|i| *map.value(i)).collect();
    assert_eq!(values, vec![2, 4, 1, 3]);
    assert_eq!(map.get("fig"), Some(&4));
    assert_eq!(map.get("grape"), None);
    assert!(map.contains_key("zebra"));
    assert!(!map.contains_key(""));
    assert_eq!(map.position("fig"), (1, true));
    assert_eq!(map.position("grape"), (2, false));
    assert_eq!(map.position("zz"), (4, false));
    assert_eq!(map.position("a"), (0, false));
}

#[test]
fn map_replaces_and_removes() {
    let mut map: StrMap<String, u32> = StrMap::new();
    map.insert("a".to_string(), 1);
    map.insert("b".to_string(), 2);
    map.insert("a".to_string(), 3);
    assert_eq!(map.len(), 2);
    assert_eq!(map.get("a"), Some(&3));
    let copy = map.clone();
    assert_eq!(copy, map);
    assert_eq!(map.remove_at(0), ("a".to_string(), 3));
    assert_eq!(map.len(), 1);
    assert_eq!(map.get("a"), None);
    assert_eq!(map.get("b"), Some(&2));
    assert_eq!(copy.len(), 2);
}

#[test]
fn sets_unite_and_compare() {
    let mut a: StrSet<String> = StrSet::new();
    a.insert("x".to_string());
    a.insert("y".to_string());
    a.insert("x".to_string());
    assert_eq!(a.len(), 2);
    assert_eq!(a.item(0), "x");
    assert_eq!(a.item(1), "y");
    let mut b: StrSet<String> = StrSet::new();
    b.insert("z".to_string());
    b.insert("a".to_string());
    assert!(!b.is_subset(&a));
    assert!(StrSet::<String>::new().is_subset(&a));
    let mut all = a.clone();
    all.union(b.clone());
    assert_eq!((0..all.len()).map(|i| all.item(i).clone()).collect::<Vec<_>>(), vec!["a", "x", "y", "z"]);
    assert!(a.is_subset(&all) && b.is_subset(&all) && !all.is_subset(&a));
    let mut again = all.clone();
    again.merge(b);
    assert_eq!(again, all);
    assert!(all.contains("z") && !all.contains("q"));
}

#[test]
fn architectures_are_keys_by_their_token() {
    let mut set: StrSet<Sel4Architecture> = StrSet::new();
    set.insert(Sel4Architecture::X86_64);
    set.insert(Sel4Architecture::AArch32);
    set.insert(Sel4Architecture::Ia32);
    assert!(set.contains("ia32") && set.contains("x86_64") && !set.contains("riscv64"));
    assert_eq!(Identifier::as_str(&Sel4Architecture::RiscV32), "riscv32");
    assert_eq!(Identifier::duplicate(&Sel4Architecture::Ia32), Sel4Architecture::Ia32);
    assert_eq!(Identifier::as_str(&FlagId::new("flag")), "flag");
    assert_eq!(Identifier::duplicate(&"text".to_string()), "text");
}

fn setting(entries: &[(&str, Value)]) -> Setting {
    let mut s = Setting::default();
    for (k, v) in entries {
        s.set(FlagId::new(k), v.clone());
    }
    s
}

#[test]
fn catalogs_merge_item_by_item() {
    let mut base: NamedMap<Variation> = NamedMap::new();
    base.insert(VariationId::new("one"), Variation::new(setting(&[("a", Value::Boolean(true))])));
    base.insert(VariationId::new("two"), Variation::new(setting(&[("b", Value::Boolean(true))])));
    let mut layer: NamedMap<Variation> = NamedMap::new();
    layer.insert(
        VariationId::new("two"),
        Variation::new(setting(&[("b", Value::Boolean(false)), ("c", Value::Text("x".to_string()))])),
    );
    layer.insert(VariationId::new("three"), Variation::new(setting(&[("d", Value::Boolean(true))])));
    base.merge(layer);
    let names: Vec<String> = base.all().iter().map(|v| v.name().to_string()).collect();
    assert_eq!(names, vec!["one", "three", "two"]);
    let two = base.get(&VariationId::new("two")).unwrap();
    assert_eq!(
        two.setting(),
        &setting(&[("b", Value::Boolean(false)), ("c", Value::Text("x".to_string()))])
    );
    assert_eq!(two.name(), &VariationId::new("two"));
    assert_eq!(base.get(&VariationId::new("one")).unwrap().setting(), &setting(&[("a", Value::Boolean(true))]));
    assert!(base.get(&VariationId::new("four")).is_none());
    assert_eq!(NamedMap::<Variation>::default(), NamedMap::new());
}

#[test]
fn platforms_merge_all_three_parts() {
    let mut arm: StrSet<Sel4Architecture> = StrSet::new();
    arm.insert(Sel4Architecture::AArch32);
    let mut variations: NamedMap<Variation> = NamedMap::new();
    variations.insert(VariationId::new("v"), Variation::new(setting(&[("x", Value::Boolean(true))])));
    let mut platform = Platform::new(arm, variations, setting(&[("mcs", Value::Boolean(false))]));
    let mut more: StrSet<Sel4Architecture> = StrSet::new();
    more.insert(Sel4Architecture::AArch64);
    platform.merge(Platform::new(more, NamedMap::new(), setting(&[("mcs", Value::Boolean(true))])));
    assert_eq!(platform.setting().flag(&FlagId::new("mcs")), Value::Boolean(true));
    assert!(platform.variation(&VariationId::new("v")).is_some());
    let id = PlatformId::new("p");
    let named = s4::NameRef::new(&platform, &id);
    assert_eq!(Platform::check_architecture(&named, Sel4Architecture::AArch64), Ok(()));
    assert_eq!(Platform::check_architecture(&named, Sel4Architecture::AArch32), Ok(()));
    assert!(Platform::check_architecture(&named, Sel4Architecture::Ia32).is_err());
}

#[test]
fn flags_keep_their_description() {
    let mut flag = Flag::new("first", Some("A"), vec![]);
    flag.merge(Flag::new("second", None, vec![]));
    assert_eq!(flag.description(), "first");
    assert_eq!(flag.variable(), &Some("A".to_string()));
    flag.merge(Flag::new("third", Some("B"), vec![]));
    assert_eq!(flag.description(), "first");
    assert_eq!(flag.variable(), &Some("B".to_string()));
    assert_eq!(flag.cmake_flag(&Value::Text("v".to_string())), Some("-DB=v".to_string()));
    assert_eq!(Flag::new("none", None, vec![]).cmake_flag(&Value::Boolean(true)), None);
}

#[test]
fn requirement_sets_do_not_grow_on_repeated_union() {
    let conjunction = |flag: &str, wanted: Requirement| {
        let mut map: StrMap<FlagId, Requirement> = StrMap::new();
        map.insert(FlagId::new(flag), wanted);
        map
    };
    let any = |values: &[&str]| Requirement::Any(values.iter().map(|v| Value::Text(v.to_string())).collect());
    let layer = Flag::new(
        "layer",
        None,
        vec![conjunction("x", Requirement::from_bool(true)), conjunction("y", any(&["a", "b"]))],
    );
    let mut flag = Flag::new("flag", None, vec![conjunction("y", any(&["b", "a", "b"]))]);
    flag.merge(layer.clone());
    assert_eq!(flag.requirements().len(), 2);
    let once = flag.clone();
    flag.merge(layer);
    assert_eq!(flag, once);
    assert!(any(&["a", "b"]).same(&any(&["b", "a"])));
    assert!(!any(&["a"]).same(&any(&["a", "b"])));
    assert!(!any(&["a"]).same(&Requirement::from_string("a")));
    assert!(Requirement::from_string("a").same(&Requirement::from_string("a")));
    assert!(!Requirement::from_bool(true).same(&Requirement::from_bool(false)));
}

#[test]
fn values_are_shown_and_compared() {
    assert!(Value::Boolean(true).is_bool());
    assert!(!Value::Text("true".to_string()).is_bool());
    assert_eq!(Value::Boolean(true).cmake_str(), "ON");
    assert_eq!(Value::Boolean(false).cmake_str(), "OFF");
    assert_eq!(Value::Text("x".to_string()).cmake_str(), "x");
    assert_eq!(Value::Boolean(true).to_string(), "true");
    assert_eq!(Value::Boolean(false).to_string(), "false");
    assert!(Value::Text("a".to_string()).same(&Value::Text("a".to_string())));
    assert!(!Value::Text("true".to_string()).same(&Value::Boolean(true)));
    assert!(Value::Boolean(false) < Value::Boolean(true));
    assert!(Value::Boolean(true) < Value::Text(String::new()));
    assert!(Value::Text("a".to_string()) < Value::Text("b".to_string()));
    let mut value = Value::Boolean(true);
    value.merge(Value::Text("later".to_string()));
    assert_eq!(value, Value::Text("later".to_string()));
}

#[test]
fn setting_helpers() {
    let mut s = Setting::default();
    s.set_text("name", "value");
    s.set_platform("odroidc2");
    s.set_kernel_platform("odroid");
    assert_eq!(s.flag(&FlagId::new("name")), Value::Text("value".to_string()));
    assert_eq!(s.flag(&FlagId::new("platform")), Value::Text("odroidc2".to_string()));
    assert_eq!(s.flag(&FlagId::new("kernel-platform")), Value::Text("odroid".to_string()));
    assert_eq!(s.to_string(), "{ kernel-platform: odroid, name: value, platform: odroidc2 }");
    let copy = s.clone();
    assert_eq!(copy, s);
}

#[test]
fn errors_say_what_went_wrong() {
    assert_eq!(Error::NoSuchPlatform("p".to_string()).message(), "No such platform p");
    assert_eq!(
        Error::NoSuchVariation("v".to_string(), "p".to_string()).message(),
        "No such platform variation v for platform p"
    );
    assert_eq!(Error::NoSuchProject("j".to_string()).message(), "No such project j");
    assert_eq!(
        Error::Unsatisfied("f".to_string()).message(),
        "None of the requirement sets for the flag f could be satisfied"
    );
    assert_eq!(
        Error::InvalidValue("f".to_string(), "text".to_string()).message(),
        "Cannot set flag f with requirements to non-boolean value: text"
    );
    assert_eq!(
        Error::UnsupportedArchitecture(Sel4Architecture::Ia32, "p".to_string()).message(),
        "Architecture ia32 is not supported on platform p"
    );
    assert_eq!(Error::MalformedRepository("org".to_string()).message(), "Malformed repository: org");
    assert_eq!(Error::BuildNotEmpty("b".to_string()).message(), "Build directory b is not empty");
    assert_eq!(Error::WorkspaceExists("w".to_string()).message(), "Workspace directory path w already exists");
    assert_eq!(
        Error::NoMatchingSystem("plat3".to_string(), None).message(),
        "No matching system found for plat3"
    );
    assert_eq!(
        Error::NoMatchingSystem("plat1".to_string(), Some("v".to_string())).message(),
        "No matching system found for plat1:v"
    );
    assert_eq!(Error::NoSystemRan.message(), "Could not run on any available system");
    assert_eq!(Error::ImagesMissing.message(), "images directory is missing");
}
