use s4::{
    Architecture, Config, Defaults, Error, Flag, FlagId, Merge, NameRef, NamedMap, Platform,
    PlatformChoice, PlatformId, Project, ProjectId, Repository, Requirement, Sel4Architecture,
    Setting, StrMap, StrSet, Value, Variation, VariationId,
};

#[test]
fn it_works() {
    assert_eq!(2 + 2, 4);
}

fn setting(entries: &[(&str, Value)]) -> Setting {
    let mut s = Setting::default();
    for (k, v) in entries {
        s.set(FlagId::new(k), v.clone());
    }
    s
}

#[test]
fn merge_with_empty_is_identity() {
    let a = setting(&[("mcs", Value::Boolean(true)), ("name", Value::Text("x".to_string()))]);
    let mut merged = a.clone();
    merged.merge(Setting::default());
    assert_eq!(merged, a);
}

#[test]
fn merge_is_idempotent() {
    let a = setting(&[("mcs", Value::Boolean(true)), ("name", Value::Text("x".to_string()))]);
    let b = setting(&[("mcs", Value::Boolean(false)), ("smp", Value::Boolean(true))]);
    let mut once = a.clone();
    once.merge(b.clone());
    let mut twice = once.clone();
    twice.merge(b.clone());
    assert_eq!(once, twice);
    assert_eq!(once.flag(&FlagId::new("mcs")), Value::Boolean(false));
    assert_eq!(once.flag(&FlagId::new("smp")), Value::Boolean(true));
    assert_eq!(once.flag(&FlagId::new("name")), Value::Text("x".to_string()));
    assert_eq!(once.flag(&FlagId::new("absent")), Value::Boolean(false));
}

#[test]
fn flags_come_in_name_order() {
    let s = setting(&[
        ("zeta", Value::Boolean(true)),
        ("alpha", Value::Boolean(false)),
        ("mid", Value::Text("m".to_string())),
    ]);
    let names: Vec<String> = s.flags().iter().map(|(k, _)| k.to_string()).collect();
    assert_eq!(names, vec!["alpha".to_string(), "mid".to_string(), "zeta".to_string()]);
}

fn gated_flag() -> Flag {
    let mut first: StrMap<FlagId, Requirement> = StrMap::new();
    first.insert(FlagId::new("x"), Requirement::from_bool(true));
    let mut second: StrMap<FlagId, Requirement> = StrMap::new();
    second.insert(FlagId::new("y"), Requirement::from_string("a"));
    Flag::new("gated", Some("Gated"), vec![first, second])
}

#[test]
fn gated_flag_needs_one_conjunction() {
    let flag = gated_flag();
    let id = FlagId::new("f");
    let on = Value::Boolean(true);

    let neither = setting(&[]);
    assert_eq!(
        Flag::validate(NameRef::new(&flag, &id), &neither, &on),
        Err(Error::Unsatisfied("f".to_string()))
    );
    let x_on = setting(&[("x", Value::Boolean(true))]);
    assert_eq!(Flag::validate(NameRef::new(&flag, &id), &x_on, &on), Ok(()));
    let y_a = setting(&[("y", Value::Text("a".to_string()))]);
    assert_eq!(Flag::validate(NameRef::new(&flag, &id), &y_a, &on), Ok(()));
    let y_b = setting(&[("y", Value::Text("b".to_string())), ("x", Value::Boolean(false))]);
    assert_eq!(
        Flag::validate(NameRef::new(&flag, &id), &y_b, &on),
        Err(Error::Unsatisfied("f".to_string()))
    );
    assert_eq!(Flag::validate(NameRef::new(&flag, &id), &neither, &Value::Boolean(false)), Ok(()));
    assert_eq!(
        Flag::validate(NameRef::new(&flag, &id), &x_on, &Value::Text("text".to_string())),
        Err(Error::InvalidValue("f".to_string(), "text".to_string()))
    );
}

#[test]
fn ungated_flag_takes_any_value() {
    let flag = Flag::new("free", None, vec![]);
    let id = FlagId::new("free");
    let s = setting(&[]);
    assert_eq!(Flag::validate(NameRef::new(&flag, &id), &s, &Value::Text("t".to_string())), Ok(()));
    assert_eq!(Flag::validate(NameRef::new(&flag, &id), &s, &Value::Boolean(true)), Ok(()));
}

#[test]
fn requirement_any_admits_members() {
    let any = Requirement::Any(vec![Value::Text("a".to_string()), Value::Text("b".to_string())]);
    assert!(any.check(&Value::Text("b".to_string())));
    assert!(!any.check(&Value::Text("c".to_string())));
    assert!(!any.check(&Value::Boolean(true)));
}

fn sample_config() -> Config {
    let mut variations: NamedMap<Variation> = NamedMap::new();
    variations.insert(VariationId::new("V"), Variation::new(setting(&[("mcs", Value::Boolean(true))])));
    let mut architectures: StrSet<Sel4Architecture> = StrSet::new();
    architectures.insert(Sel4Architecture::AArch64);
    let platform = Platform::new(architectures, variations, setting(&[("mcs", Value::Boolean(false))]));
    let mut platforms: NamedMap<Platform> = NamedMap::new();
    platforms.insert(PlatformId::new("P"), platform);

    let project = Project::new(
        Repository::parse("org/name").unwrap(),
        None,
        None,
        None,
        StrSet::new(),
        setting(&[("mcs", Value::Boolean(false))]),
    );
    let mut projects: NamedMap<Project> = NamedMap::new();
    projects.insert(ProjectId::new("J"), project);

    let mut arch: StrMap<Sel4Architecture, Setting> = StrMap::new();
    arch.insert(Sel4Architecture::RiscV64, setting(&[("riscv", Value::Boolean(true))]));

    Config::new(Defaults::new(None, None, None, None, None), NamedMap::new(), platforms, arch, projects)
}

#[test]
fn project_layer_wins() {
    let config = sample_config();
    for arch in [
        Sel4Architecture::AArch32,
        Sel4Architecture::AArch64,
        Sel4Architecture::RiscV32,
        Sel4Architecture::RiscV64,
        Sel4Architecture::Ia32,
        Sel4Architecture::X86_64,
    ] {
        let resolved = config
            .platform_setting(&ProjectId::new("J"), &PlatformId::new("P"), Some(&VariationId::new("V")), arch)
            .unwrap();
        assert_eq!(resolved.flag(&FlagId::new("mcs")), Value::Boolean(false));
        assert_eq!(resolved.flag(&FlagId::new("platform")), Value::Text("V".to_string()));
        assert_eq!(resolved.flag(&FlagId::new("kernel-platform")), Value::Text("P".to_string()));
        assert_eq!(
            resolved.flag(&FlagId::new("riscv")),
            Value::Boolean(arch == Sel4Architecture::RiscV64)
        );
    }
}

#[test]
fn resolution_names_what_is_missing() {
    let config = sample_config();
    let j = ProjectId::new("J");
    let p = PlatformId::new("P");
    assert_eq!(
        config.platform_setting(&j, &PlatformId::new("Q"), None, Sel4Architecture::Ia32),
        Err(Error::NoSuchPlatform("Q".to_string()))
    );
    assert_eq!(
        config.platform_setting(&j, &p, Some(&VariationId::new("W")), Sel4Architecture::Ia32),
        Err(Error::NoSuchVariation("W".to_string(), "P".to_string()))
    );
    assert_eq!(
        config.platform_setting(&ProjectId::new("K"), &p, None, Sel4Architecture::Ia32),
        Err(Error::NoSuchProject("K".to_string()))
    );
    let plain = config.platform_setting(&j, &p, None, Sel4Architecture::Ia32).unwrap();
    assert_eq!(plain.flag(&FlagId::new("platform")), Value::Text("P".to_string()));
}

#[test]
fn repository_parsing() {
    let repo = Repository::parse("org/name").unwrap();
    assert_eq!(repo.organisation(), "org");
    assert_eq!(repo.name(), "name");
    assert_eq!(repo.to_string(), "org/name");
    assert_eq!(
        Repository::parse("org/name.git"),
        Err(Error::MalformedRepository("org/name.git".to_string()))
    );
    assert_eq!(Repository::parse("org"), Err(Error::MalformedRepository("org".to_string())));
    assert_eq!(Repository::parse("a/b/c"), Err(Error::MalformedRepository("a/b/c".to_string())));
    assert_eq!("org/name".parse::<Repository>(), Ok(repo));
}

#[test]
fn architecture_families() {
    assert_eq!(Sel4Architecture::AArch32.architecture(), Architecture::Arm);
    assert_eq!(Sel4Architecture::AArch64.architecture(), Architecture::Arm);
    assert_eq!(Sel4Architecture::X86_64.architecture(), Architecture::X86);
    assert_eq!(Sel4Architecture::Ia32.architecture(), Architecture::X86);
    assert_eq!(Sel4Architecture::RiscV32.architecture(), Architecture::RiscV);
    assert_eq!(Sel4Architecture::RiscV64.architecture(), Architecture::RiscV);
}

#[test]
fn architecture_tokens() {
    assert_eq!(Sel4Architecture::parse("arm_hyp"), Ok(Sel4Architecture::AArch32));
    assert_eq!(Sel4Architecture::parse("amd64"), Ok(Sel4Architecture::X86_64));
    assert_eq!(Sel4Architecture::parse("X64"), Ok(Sel4Architecture::X86_64));
    assert_eq!(Sel4Architecture::parse("riscv64"), Ok(Sel4Architecture::RiscV64));
    assert_eq!(
        Sel4Architecture::parse("sparc"),
        Err(Error::InvalidArchitecture("sparc".to_string()))
    );
    assert_eq!(Sel4Architecture::Ia32.to_string(), "ia32");
    assert_eq!("aarch64".parse::<Sel4Architecture>(), Ok(Sel4Architecture::AArch64));
}

#[test]
fn platform_choices() {
    assert_eq!(
        PlatformChoice::parse("odroidc2"),
        Ok(PlatformChoice::ChoosePlatform(PlatformId::new("odroidc2")))
    );
    let both = PlatformChoice::parse("imx8:quad").unwrap();
    assert_eq!(
        both,
        PlatformChoice::ChooseVariation(PlatformId::new("imx8"), VariationId::new("quad"))
    );
    assert_eq!(both.to_string(), "imx8:quad");
    assert_eq!(
        PlatformChoice::parse("a:b:c"),
        Err(Error::MalformedPlatformChoice("a:b:c".to_string()))
    );
}
