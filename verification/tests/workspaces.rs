use s4::{
    create_build, find_context, Build, BuildContext, Config, Context, Defaults, Error, FlagId, Found,
    Item, NamedMap, Platform, PlatformId, Probe, Project, ProjectId, Repository, Sel4Architecture,
    Setting, StrMap, StrSet, TargetState, Value, Variation, VariationId, Workspace, WorkspaceContext,
    CACHE_SUBDIR,
};

fn strings(items: &[&str]) -> Vec<String> {
    items.iter().map(|s| s.to_string()).collect()
}

fn setting(entries: &[(&str, Value)]) -> Setting {
    let mut s = Setting::default();
    for (k, v) in entries {
        s.set(FlagId::new(k), v.clone());
    }
    s
}

fn config() -> Config {
    let mut variations: NamedMap<Variation> = NamedMap::new();
    variations.insert(VariationId::new("quad"), Variation::new(setting(&[("cores", Value::Text("4".to_string()))])));
    let mut architectures: StrSet<Sel4Architecture> = StrSet::new();
    architectures.insert(Sel4Architecture::AArch64);
    let platform = Platform::new(architectures, variations, setting(&[("mcs", Value::Boolean(false))]));
    let mut platforms: NamedMap<Platform> = NamedMap::new();
    platforms.insert(PlatformId::new("odroidc2"), platform);
    let project = Project::new(
        Repository::parse("seL4/sel4test-manifest").unwrap(),
        Some("projects/sel4test".to_string()),
        None,
        None,
        StrSet::new(),
        setting(&[("tests", Value::Boolean(true))]),
    );
    let mut projects: NamedMap<Project> = NamedMap::new();
    projects.insert(ProjectId::new("sel4test"), project);
    Config::new(Defaults::new(None, None, None, None, None), NamedMap::new(), platforms, StrMap::new(), projects)
}

fn workspace() -> WorkspaceContext {
    WorkspaceContext::create(ProjectId::new("sel4test"), "ws", TargetState::Missing).unwrap()
}

fn build(added: Setting) -> BuildContext {
    BuildContext::create(
        &config(),
        &workspace(),
        PlatformId::new("odroidc2"),
        Some(VariationId::new("quad")),
        Sel4Architecture::AArch64,
        added,
        "ws/build-odroid",
        TargetState::EmptyDirectory,
        &strings(&["/", "home", "ws"]),
        &strings(&["/", "home", "ws", "build-odroid"]),
    )
    .unwrap()
}

#[test]
fn workspace_needs_a_vacant_path() {
    let project = ProjectId::new("sel4test");
    let made = WorkspaceContext::create(project.clone(), "ws", TargetState::Missing).unwrap();
    assert_eq!(made.workspace_root(), "ws");
    assert_eq!(made.project(), &project);
    assert_eq!(made.workspace().build_paths(), Vec::<String>::new());
    assert_eq!(made.marker_path(), "ws/.s4-workspace.toml");
    assert_eq!(made.cache_path(), "ws/.sel4_cache");
    assert_eq!(CACHE_SUBDIR, ".sel4_cache");
    assert!(WorkspaceContext::create(project.clone(), "ws", TargetState::EmptyDirectory).is_ok());
    assert_eq!(
        WorkspaceContext::create(project.clone(), "ws", TargetState::OccupiedDirectory),
        Err(Error::WorkspaceNotEmpty("ws".to_string()))
    );
    assert_eq!(
        WorkspaceContext::create(project, "ws", TargetState::NotDirectory),
        Err(Error::WorkspaceExists("ws".to_string()))
    );
}

#[test]
fn workspace_marker_round_trip() {
    let context = build(Setting::default());
    let document = context.workspace().document();
    assert_eq!(document.get("project"), Some(&Item::Text("sel4test".to_string())));
    assert_eq!(document.get("builds"), Some(&Item::List(vec!["build-odroid".to_string()])));
    assert_eq!(document.len(), 2);
    let loaded = WorkspaceContext::load("ws", Some(&document)).unwrap();
    assert_eq!(&loaded, context.workspace());
    assert_eq!(
        WorkspaceContext::load("ws", None),
        Err(Error::MissingMarker("ws/.s4-workspace.toml".to_string()))
    );
    let mut broken: StrMap<String, Item> = StrMap::new();
    broken.insert("project".to_string(), Item::Boolean(true));
    broken.insert("builds".to_string(), Item::List(vec![]));
    assert_eq!(
        WorkspaceContext::load("ws", Some(&broken)),
        Err(Error::MalformedMarker("ws/.s4-workspace.toml".to_string()))
    );
}

#[test]
fn build_records_both_ways() {
    let context = build(setting(&[("mcs", Value::Boolean(true))]));
    assert_eq!(context.build_root(), "ws/build-odroid");
    assert_eq!(context.workspace_root(), "ws");
    assert_eq!(context.maybe_build_root(), Some("ws/build-odroid"));
    assert_eq!(workspace().maybe_build_root(), None);
    assert_eq!(context.platform(), &PlatformId::new("odroidc2"));
    assert_eq!(context.variation(), Some(&VariationId::new("quad")));
    assert_eq!(context.architecture(), Sel4Architecture::AArch64);
    assert_eq!(context.workspace().build_paths(), vec!["ws/build-odroid".to_string()]);
    let s = context.setting();
    assert_eq!(s.flag(&FlagId::new("mcs")), Value::Boolean(true));
    assert_eq!(s.flag(&FlagId::new("tests")), Value::Boolean(true));
    assert_eq!(s.flag(&FlagId::new("cores")), Value::Text("4".to_string()));
    assert_eq!(s.flag(&FlagId::new("platform")), Value::Text("quad".to_string()));
    assert_eq!(s.flag(&FlagId::new("kernel-platform")), Value::Text("odroidc2".to_string()));
    let (path, document) = context.save();
    assert_eq!(path, "ws/build-odroid/.s4-build.toml");
    assert_eq!(document.get("workspace-root"), Some(&Item::Text("..".to_string())));
    assert_eq!(document.get("build-platform"), Some(&Item::Text("odroidc2".to_string())));
    assert_eq!(document.get("build-variation"), Some(&Item::Text("quad".to_string())));
    assert_eq!(document.get("build-architecture"), Some(&Item::Text("aarch64".to_string())));
    assert_eq!(document.get("mcs"), Some(&Item::Boolean(true)));
    assert_eq!(document.get("cores"), Some(&Item::Text("4".to_string())));
    assert_eq!(document.len(), 9);
}

#[test]
fn build_persistence_round_trip() {
    for variation in [None, Some(VariationId::new("quad"))] {
        let created = BuildContext::create(
            &config(),
            &workspace(),
            PlatformId::new("odroidc2"),
            variation,
            Sel4Architecture::AArch64,
            setting(&[("mcs", Value::Boolean(true)), ("label", Value::Text("x y".to_string()))]),
            "ws/b",
            TargetState::Missing,
            &strings(&["/", "ws"]),
            &strings(&["/", "ws", "b"]),
        )
        .unwrap();
        let (_, document) = created.save();
        let loaded = BuildContext::load(created.workspace(), "ws/b", Some(&document)).unwrap();
        assert_eq!(loaded, created);
        assert_eq!(loaded.platform(), created.platform());
        assert_eq!(loaded.variation(), created.variation());
        assert_eq!(loaded.architecture(), created.architecture());
        assert_eq!(loaded.setting(), created.setting());
    }
}

#[test]
fn build_marker_is_checked() {
    let ws = workspace();
    assert_eq!(
        BuildContext::load(&ws, "ws/b", None),
        Err(Error::MissingMarker("ws/b/.s4-build.toml".to_string()))
    );
    let (_, good) = build(Setting::default()).save();
    assert!(Build::from_document(&good).is_some());
    let mut no_platform: StrMap<String, Item> = StrMap::new();
    no_platform.insert("workspace-root".to_string(), Item::Text("..".to_string()));
    no_platform.insert("build-architecture".to_string(), Item::Text("ia32".to_string()));
    assert_eq!(Build::from_document(&no_platform), None);
    no_platform.insert("build-platform".to_string(), Item::Text("pc99".to_string()));
    let simple = Build::from_document(&no_platform).unwrap();
    assert_eq!(
        simple,
        Build::new("..".to_string(), PlatformId::new("pc99"), None, Sel4Architecture::Ia32, Setting::default())
    );
    let mut bad_arch = simple.to_document();
    bad_arch.insert("build-architecture".to_string(), Item::Text("sparc".to_string()));
    assert_eq!(
        BuildContext::load(&ws, "ws/b", Some(&bad_arch)),
        Err(Error::MalformedMarker("ws/b/.s4-build.toml".to_string()))
    );
    let mut list_flag = simple.to_document();
    list_flag.insert("flag".to_string(), Item::List(vec![]));
    assert_eq!(Build::from_document(&list_flag), None);
    let mut alias = simple.to_document();
    alias.insert("build-architecture".to_string(), Item::Text("amd64".to_string()));
    assert_eq!(Build::from_document(&alias).map(|_| ()), Some(()));
}

#[test]
fn build_creation_fails_as_it_should() {
    let make = |platform: &str, variation: Option<&str>, target: TargetState| {
        BuildContext::create(
            &config(),
            &workspace(),
            PlatformId::new(platform),
            variation.map(VariationId::new),
            Sel4Architecture::AArch64,
            Setting::default(),
            "ws/b",
            target,
            &strings(&["/", "ws"]),
            &strings(&["/", "ws", "b"]),
        )
    };
    assert_eq!(
        make("odroidc2", None, TargetState::OccupiedDirectory),
        Err(Error::BuildNotEmpty("ws/b".to_string()))
    );
    assert_eq!(make("odroidc2", None, TargetState::NotDirectory), Err(Error::BuildExists("ws/b".to_string())));
    assert_eq!(make("nope", None, TargetState::Missing), Err(Error::NoSuchPlatform("nope".to_string())));
    assert_eq!(
        make("odroidc2", Some("duo"), TargetState::Missing),
        Err(Error::NoSuchVariation("duo".to_string(), "odroidc2".to_string()))
    );
    let stranger = WorkspaceContext::create(ProjectId::new("other"), "ws", TargetState::Missing).unwrap();
    let made = create_build(
        &stranger,
        &config(),
        "ws/b",
        PlatformId::new("odroidc2"),
        None,
        Sel4Architecture::AArch64,
        Setting::default(),
        TargetState::Missing,
        &strings(&["/", "ws"]),
        &strings(&["/", "ws", "b"]),
    );
    assert_eq!(made, Err(Error::NoSuchProject("other".to_string())));
}

#[test]
fn stale_build_records_are_passed_over() {
    let first = build(Setting::default());
    let second = BuildContext::create(
        &config(),
        first.workspace(),
        PlatformId::new("odroidc2"),
        None,
        Sel4Architecture::AArch64,
        Setting::default(),
        "ws/zz",
        TargetState::Missing,
        &strings(&["/", "home", "ws"]),
        &strings(&["/", "home", "ws", "zz"]),
    )
    .unwrap();
    let ws = second.workspace();
    let paths = ws.build_paths();
    assert_eq!(paths, vec!["ws/build-odroid".to_string(), "ws/zz".to_string()]);
    let (_, document) = second.save();
    let outcomes = ws.builds(&paths, &vec![Probe::Absent, Probe::Marked(document)]);
    assert_eq!(outcomes.len(), 2);
    assert_eq!(outcomes[0], None);
    assert_eq!(outcomes[1], Some(Ok(second.clone())));
    let outcomes = ws.builds(&paths, &vec![Probe::Unreadable]);
    assert_eq!(
        outcomes,
        vec![Some(Err(Error::MissingMarker("ws/build-odroid/.s4-build.toml".to_string()))), None]
    );
}

#[test]
fn in_place_setting_edits() {
    let mut context = build(setting(&[("mcs", Value::Boolean(true))]));
    context.update_setting(setting(&[("mcs", Value::Boolean(false)), ("new", Value::Boolean(true))]));
    assert_eq!(context.setting().flag(&FlagId::new("mcs")), Value::Boolean(false));
    assert_eq!(context.setting().flag(&FlagId::new("new")), Value::Boolean(true));
    assert_eq!(context.setting().flag(&FlagId::new("tests")), Value::Boolean(true));
    let (_, document) = context.save();
    assert_eq!(document.get("mcs"), Some(&Item::Boolean(false)));
}

#[test]
fn image_names() {
    let arm = build(Setting::default());
    assert_eq!(arm.plat_image_name(), "arm-odroidc2");
    assert_eq!(arm.kernel_image_file(), "kernel-arm-odroidc2");
    assert_eq!(arm.image_file("sel4test-driver"), "sel4test-driver-image-arm-odroidc2");
    assert_eq!(arm.image_path("rs", true), Ok("images/rs-image-arm-odroidc2".to_string()));
    assert_eq!(
        arm.image_path("rs", false),
        Err(Error::ImageMissing("images/rs-image-arm-odroidc2".to_string()))
    );
    assert_eq!(arm.kernel_image_path(true), Ok("images/kernel-arm-odroidc2".to_string()));
    assert!(!arm.needs_kernel_image());
    let mut document = arm.save().1;
    document.insert("build-architecture".to_string(), Item::Text("x86_64".to_string()));
    document.insert("build-platform".to_string(), Item::Text("pc99".to_string()));
    let pc = BuildContext::load(arm.workspace(), "ws/pc", Some(&document)).unwrap();
    assert_eq!(pc.plat_image_name(), "x86_64-pc99");
    assert!(pc.needs_kernel_image());
    document.insert("build-architecture".to_string(), Item::Text("riscv32".to_string()));
    let rv = BuildContext::load(arm.workspace(), "ws/rv", Some(&document)).unwrap();
    assert_eq!(rv.plat_image_name(), "riscv-pc99");
}

#[test]
fn root_server_is_inferred_from_images() {
    let context = build(Setting::default());
    assert_eq!(context.inferred_root_server(None), Err(Error::ImagesMissing));
    assert_eq!(context.inferred_root_server(Some(&vec![])), Err(Error::NoRootServerImage));
    let names = strings(&[
        "kernel-arm-odroidc2",
        "capdl-loader-image-arm-other",
        "sel4test-driver-image-arm-odroidc2",
        "second-image-arm-odroidc2",
    ]);
    assert_eq!(context.inferred_root_server(Some(&names)), Ok("sel4test-driver".to_string()));
    assert_eq!(
        context.inferred_root_server(Some(&strings(&["-image-arm-odroidc2"]))),
        Ok(String::new())
    );
    assert_eq!(
        context.inferred_root_server(Some(&strings(&["x-image-arm-odroidc"]))),
        Err(Error::NoRootServerImage)
    );
}

#[test]
fn closest_marker_wins() {
    assert_eq!(find_context(&vec![]), None);
    assert_eq!(find_context(&vec![(false, false), (false, false)]), None);
    assert_eq!(find_context(&vec![(false, false), (false, true)]), Some(Found::Workspace(1)));
    assert_eq!(find_context(&vec![(true, false), (false, true)]), Some(Found::Build(0)));
    assert_eq!(find_context(&vec![(false, true), (true, false)]), Some(Found::Workspace(0)));
    assert_eq!(find_context(&vec![(false, false), (true, true), (false, true)]), Some(Found::Build(1)));
}

#[test]
fn source_directory_is_inferred_from_the_hint() {
    let ws = workspace();
    let root = strings(&["/", "home", "ws"]);
    let hint = strings(&["/", "home", "ws", "projects", "sel4test", "easy-settings.cmake"]);
    assert_eq!(ws.inferred_source(&root, Some(&hint)), Ok("projects/sel4test".to_string()));
    assert_eq!(ws.inferred_source(&root, None), Err(Error::NoSourceDirectory));
    assert_eq!(Workspace::EASY_SETTINGS, "easy-settings.cmake");
    assert_eq!(Workspace::FILENAME, ".s4-workspace.toml");
    assert_eq!(Build::FILENAME, ".s4-build.toml");
}
