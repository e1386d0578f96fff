use s4::{
    app_candidates, easy_setting, easy_settings, find_app_path, tmp_app_path, tmp_app_path_for, Apps,
    BuildContext, Config, Context, Defaults, Docker, DockerImpl, Error, Flag, FlagId, HostPaths,
    Merge, NameRef, NamedMap, Platform, PlatformId, Project, ProjectId, Repository, Requirement,
    Sel4Architecture, Setting, StrMap, StrSet, System, TargetState, Value, VariationId,
    WorkspaceContext,
};

fn strings(items: &[&str]) -> Vec<String> {
    items.iter().map(|s| s.to_string()).collect()
}

fn defaults() -> Defaults {
    Defaults::new(None, None, None, None, None)
}

fn apps<'d>(defaults: &'d Defaults, version: &str) -> Apps<'d> {
    Apps::try_new(
        defaults,
        "/usr/bin/repo".to_string(),
        Some("/usr/bin/docker".to_string()),
        version,
        Some("/opt/mq.sh".to_string()),
    )
    .unwrap()
}

#[test]
fn engine_is_told_by_its_version() {
    assert_eq!(DockerImpl::detect("Docker version 20.10.2, build 2291f61"), DockerImpl::Docker);
    assert_eq!(DockerImpl::detect("podman version 3.0.1"), DockerImpl::Podman);
    assert_eq!(DockerImpl::detect("Emulate Docker CLI using podman."), DockerImpl::Podman);
    assert_eq!(DockerImpl::detect(""), DockerImpl::Docker);
    let d = defaults();
    assert_eq!(apps(&d, "podman version 3").docker_impl(), DockerImpl::Podman);
    assert_eq!(apps(&d, "Docker version 20").docker_impl(), DockerImpl::Docker);
}

#[test]
fn tools_need_the_container_engine() {
    let d = defaults();
    let none = Apps::try_new(&d, "repo".to_string(), None, "", None);
    assert_eq!(none.err(), Some(Error::DockerMissing));
    let some = Apps::try_new(&d, "repo".to_string(), Some("docker".to_string()), "", None).unwrap();
    assert!(!some.machine_queue_available());
    assert_eq!(some.machine_queue(), Err(Error::NoMachineQueue));
    assert_eq!(some.repo(), "repo");
    assert_eq!(some.docker_program(), "docker");
    let full = apps(&d, "");
    assert!(full.machine_queue_available());
    assert_eq!(full.machine_queue(), Ok("/opt/mq.sh"));
}

#[test]
fn manifest_tool_arguments() {
    let d = defaults();
    let repo = Repository::parse("seL4/sel4test-manifest").unwrap();
    assert_eq!(
        apps(&d, "").repo_init(&repo),
        strings(&["init", "--manifest-url", "https://github.com/seL4/sel4test-manifest.git"])
    );
    let d = Defaults::new(
        Some("ssh://git.example.org".to_string()),
        None,
        None,
        Some("devel".to_string()),
        Some("camkes.xml".to_string()),
    );
    assert_eq!(
        apps(&d, "").repo_init(&repo),
        strings(&[
            "init",
            "--manifest-url",
            "ssh://git.example.org/seL4/sel4test-manifest.git",
            "--manifest-branch",
            "devel",
            "--manifest-name",
            "camkes.xml",
        ])
    );
}

#[test]
fn defaults_fall_back() {
    let d = defaults();
    assert_eq!(d.git_server(), "https://github.com");
    assert_eq!(d.docker_image(), "docker.io/trustworthysystems/camkes-riscv");
    assert_eq!(d.repo_url(), "https://storage.googleapis.com/git-repo-downloads/repo");
    assert_eq!(d.repo_branch(), None);
    assert_eq!(d.repo_manifest(), None);
    let mut layered = Defaults::new(Some("a".to_string()), Some("img".to_string()), None, None, None);
    layered.merge(Defaults::new(Some("b".to_string()), None, None, Some("br".to_string()), None));
    assert_eq!(layered.git_server(), "b");
    assert_eq!(layered.docker_image(), "img");
    assert_eq!(layered.repo_branch(), Some("br"));
    assert_eq!(layered.git_repo_url(&Repository::parse("o/n").unwrap()), "b/o/n.git");
    let mut unchanged = Some(1);
    unchanged.merge(None);
    assert_eq!(unchanged, Some(1));
    unchanged.maybe_merge(Some(Some(2)));
    assert_eq!(unchanged, Some(2));
    unchanged.maybe_merge(None);
    assert_eq!(unchanged, Some(2));
    let mut text = "a".to_string();
    text.merge("b".to_string());
    assert_eq!(text, "b");
}

#[test]
fn container_run_arguments() {
    let d = defaults();
    let tools = apps(&d, "Docker version 20");
    let docker = tools
        .docker("/home/me".to_string())
        .mount("/workspace", "/home/me/ws".to_string())
        .mount("/build", "/home/me/ws/b".to_string())
        .work_dir("/build");
    assert_eq!(
        docker.run_as("cmake", 1000, 100),
        strings(&[
            "run",
            "-it",
            "--rm",
            "--hostname",
            "s4",
            "--volume",
            "/etc/localtime:/etc/localtime:ro",
            "--user",
            "1000:100",
            "--volume",
            "/home/me/ws/b:/build:z",
            "--volume",
            "/home/me:/host:z",
            "--volume",
            "/home/me/ws:/workspace:z",
            "--workdir",
            "/build",
            "docker.io/trustworthysystems/camkes-riscv",
            "cmake",
        ])
    );
    let d = Defaults::new(None, Some("img".to_string()), None, None, None);
    let tools = apps(&d, "podman");
    assert_eq!(
        Docker::new(&tools, "/cur".to_string()).host_dir("/other".to_string()).work_dir("sub").run_as("sh", 0, 0),
        strings(&[
            "run",
            "-it",
            "--rm",
            "--hostname",
            "s4",
            "--volume",
            "/etc/localtime:/etc/localtime:ro",
            "--userns=keep-id",
            "--volume",
            "/other:/host:z",
            "--workdir",
            "/host/sub",
            "img",
            "sh",
        ])
    );
    assert_eq!(tools.docker("/cur".to_string()).update(), strings(&["pull", "img"]));
    assert_eq!(Docker::host_path("a/b"), "/host/a/b");
    let ran = tools.docker("/cur".to_string()).run("true");
    assert_eq!(ran.len(), 14);
    assert_eq!(ran[7], "--userns=keep-id");
    assert_eq!(ran[13], "true");
}

#[test]
fn container_runs_as_the_effective_user() {
    let d = defaults();
    let tools = apps(&d, "Docker");
    let ran = tools.docker("/cur".to_string()).run("true");
    assert_eq!(ran[7], "--user");
    let ids: Vec<&str> = ran[8].split(':').collect();
    assert_eq!(ids.len(), 2);
    assert!(ids.iter().all(|id| !id.is_empty() && id.chars().all(|c| c.is_ascii_digit())));
}

#[test]
fn temporary_tool_paths() {
    assert_eq!(tmp_app_path_for(None, Some("me"), 1000, "repo"), "/tmp/me-s4-repo");
    assert_eq!(tmp_app_path_for(Some("/var/tmp"), None, 1000, "repo"), "/var/tmp/1000-s4-repo");
    assert_eq!(tmp_app_path_for(Some("/var/tmp/"), Some("u"), 0, "mq.sh"), "/var/tmp/u-s4-mq.sh");
    let path = tmp_app_path(Some("/t"), "repo");
    assert!(path.starts_with("/t/") && path.ends_with("-s4-repo") && path.len() > "/t/-s4-repo".len());
}

#[test]
fn tools_are_searched_in_path_order() {
    let candidates = app_candidates("/usr/bin:/bin::/opt/x/", "repo");
    assert_eq!(candidates, strings(&["/usr/bin/repo", "/bin/repo", "repo", "/opt/x/repo"]));
    assert_eq!(find_app_path(&candidates, &vec![false, true, true, false]), Some("/bin/repo".to_string()));
    assert_eq!(find_app_path(&candidates, &vec![false, false, false, false]), None);
    assert_eq!(find_app_path(&candidates, &vec![]), None);
}

#[test]
fn settings_file_offers_flags() {
    let lines = strings(&[
        "# comment",
        "set(SIMULATION OFF CACHE BOOL \"Include only simulation compatible tests\")",
        "   set(KernelArmHyp notset CACHE BOOL \"Hypervisor support\")  ",
        "set(PLATFORM x86_64 CACHE STRING \"\")",
        "set(lower case CACHE bool \"bad type\")",
        "set(Bad-Name a CACHE BOOL \"x\")",
        "set(RELEASE OFF CACHE BOOL \"Performance optimized build\") # trailing",
    ]);
    let flags = easy_settings(Some(&lines)).unwrap();
    let names: Vec<String> = flags.all().iter().map(|f| f.name().to_string()).collect();
    assert_eq!(names, strings(&["kernel-arm-hyp", "platform", "simulation"]));
    let simulation = flags.get(&FlagId::new("simulation")).unwrap();
    assert_eq!(simulation.get().description(), "Include only simulation compatible tests");
    assert_eq!(simulation.get().variable(), &Some("SIMULATION".to_string()));
    assert_eq!(
        simulation.get().cmake_flag(&Value::Boolean(true)),
        Some("-DSIMULATION=ON".to_string())
    );
    let hyp = flags.get(&FlagId::new("kernel-arm-hyp")).unwrap();
    assert_eq!(hyp.get().cmake_flag(&Value::Boolean(false)), Some("-DKernelArmHyp=OFF".to_string()));
    assert_eq!(
        flags.get(&FlagId::new("platform")).unwrap().get().cmake_flag(&Value::Text("pc99".to_string())),
        Some("-DPLATFORM=pc99".to_string())
    );
    assert_eq!(easy_settings(None), Ok(NamedMap::new()));
    assert_eq!(easy_settings(Some(&vec![])), Ok(NamedMap::new()));
}

#[test]
fn groups_make_a_flag() {
    let groups = vec![
        Some("whole".to_string()),
        Some("KernelMcs".to_string()),
        Some(" CACHE".to_string()),
        Some("BOOL".to_string()),
        Some("mixed criticality".to_string()),
    ];
    let (id, flag) = easy_setting(&groups).unwrap();
    assert_eq!(id, FlagId::new("kernel-mcs"));
    assert_eq!(flag, Flag::new("mixed criticality", Some("KernelMcs"), vec![]));
    assert_eq!(easy_setting(&groups[..4].to_vec()), None);
    let mut missing = groups.clone();
    missing[1] = None;
    assert_eq!(easy_setting(&missing), None);
}

fn setting(entries: &[(&str, Value)]) -> Setting {
    let mut s = Setting::default();
    for (k, v) in entries {
        s.set(FlagId::new(k), v.clone());
    }
    s
}

fn catalog() -> Config {
    let mut flags: NamedMap<Flag> = NamedMap::new();
    flags.insert(FlagId::new("mcs"), Flag::new("mcs kernel", Some("KernelIsMCS"), vec![]));
    flags.insert(FlagId::new("platform"), Flag::new("platform", Some("PLATFORM"), vec![]));
    flags.insert(FlagId::new("hidden"), Flag::new("not passed", None, vec![]));
    let mut needs_mcs: StrMap<FlagId, Requirement> = StrMap::new();
    needs_mcs.insert(FlagId::new("mcs"), Requirement::from_bool(true));
    flags.insert(FlagId::new("smp"), Flag::new("multicore", Some("SMP"), vec![needs_mcs]));
    let mut architectures: StrSet<Sel4Architecture> = StrSet::new();
    architectures.insert(Sel4Architecture::X86_64);
    architectures.insert(Sel4Architecture::Ia32);
    let mut platforms: NamedMap<Platform> = NamedMap::new();
    platforms.insert(PlatformId::new("pc99"), Platform::new(architectures, NamedMap::new(), Setting::default()));
    let mut projects: NamedMap<Project> = NamedMap::new();
    let mut command_line: StrSet<FlagId> = StrSet::new();
    command_line.insert(FlagId::new("smp"));
    command_line.insert(FlagId::new("mcs"));
    projects.insert(
        ProjectId::new("sel4test"),
        Project::new(
            Repository::parse("seL4/sel4test-manifest").unwrap(),
            None,
            None,
            Some("All is well".to_string()),
            command_line,
            setting(&[("hidden", Value::Boolean(true))]),
        ),
    );
    Config::new(defaults(), flags, platforms, StrMap::new(), projects)
}

fn context(config: &Config, added: Setting) -> BuildContext {
    let ws = WorkspaceContext::create(ProjectId::new("sel4test"), "ws", TargetState::Missing).unwrap();
    BuildContext::create(
        config,
        &ws,
        PlatformId::new("pc99"),
        None,
        Sel4Architecture::X86_64,
        added,
        "ws/b",
        TargetState::Missing,
        &strings(&["/", "ws"]),
        &strings(&["/", "ws", "b"]),
    )
    .unwrap()
}

fn paths() -> HostPaths {
    HostPaths { current: "/ws/b".to_string(), workspace: "/ws".to_string(), build: "/ws/b".to_string() }
}

#[test]
fn setting_is_checked_against_the_catalog() {
    let config = catalog();
    assert_eq!(config.check_setting(&setting(&[("smp", Value::Boolean(true)), ("mcs", Value::Boolean(true))])), Ok(()));
    assert_eq!(
        config.check_setting(&setting(&[("smp", Value::Boolean(true))])),
        Err(Error::Unsatisfied("smp".to_string()))
    );
    assert_eq!(config.check_setting(&setting(&[("smp", Value::Boolean(false))])), Ok(()));
    assert_eq!(
        config.check_setting(&setting(&[("smp", Value::Text("on".to_string())), ("unknown", Value::Boolean(true))])),
        Err(Error::InvalidValue("smp".to_string(), "on".to_string()))
    );
    assert_eq!(config.check_setting(&setting(&[("unknown", Value::Text("x".to_string()))])), Ok(()));
    assert_eq!(
        config.cmake_args(&setting(&[
            ("smp", Value::Boolean(false)),
            ("hidden", Value::Boolean(true)),
            ("mcs", Value::Boolean(true)),
            ("platform", Value::Text("pc99".to_string())),
            ("unknown", Value::Boolean(true)),
        ])),
        strings(&["-DKernelIsMCS=ON", "-DPLATFORM=pc99", "-DSMP=OFF"])
    );
}

#[test]
fn build_generator_arguments() {
    let config = catalog();
    let d = defaults();
    let tools = apps(&d, "podman");
    let project = config.project(&ProjectId::new("sel4test")).unwrap();
    let build = context(&config, setting(&[("mcs", Value::Boolean(true))]));
    let run = strings(&[
        "run",
        "-it",
        "--rm",
        "--hostname",
        "s4",
        "--volume",
        "/etc/localtime:/etc/localtime:ro",
        "--userns=keep-id",
        "--volume",
        "/ws/b:/build:z",
        "--volume",
        "/ws/b:/host:z",
        "--volume",
        "/ws:/workspace:z",
        "--workdir",
        "/build",
        "docker.io/trustworthysystems/camkes-riscv",
        "cmake",
        "-DKernelIsMCS=ON",
        "-DPLATFORM=pc99",
    ]);
    let mut init = run.clone();
    init.extend(strings(&[
        "-G",
        "Ninja",
        "-DSEL4_CACHE_DIR=/workspace/.sel4_cache",
        "-B",
        "/build",
        "-S",
        "/workspace/projects/sel4test",
        "-C",
        "/workspace/projects/sel4test/settings.cmake",
    ]));
    assert_eq!(
        project.get().init_build(&build, &tools, &config, &paths(), Some("projects/sel4test")),
        Ok(init)
    );
    assert_eq!(
        project.get().init_build(&build, &tools, &config, &paths(), None),
        Err(Error::NoSourceDirectory)
    );
    let mut update = run.clone();
    update.push("/build".to_string());
    assert_eq!(project.get().update_build(&build, &tools, &config, &paths()), Ok(update));
    let invalid = context(&config, setting(&[("smp", Value::Boolean(true))]));
    assert_eq!(
        project.get().update_build(&invalid, &tools, &config, &paths()),
        Err(Error::Unsatisfied("smp".to_string()))
    );
    assert_eq!(
        project.get().init_build(&invalid, &tools, &config, &paths(), None),
        Err(Error::Unsatisfied("smp".to_string()))
    );
    let ninja = build.ninja(&tools, &paths());
    assert_eq!(ninja[..17], run[..17]);
    assert_eq!(ninja[17..], strings(&["ninja"])[..]);
    let only_workspace = build.workspace().docker(&tools, &paths()).run_as("sh", 1, 2);
    assert_eq!(only_workspace[8..12], strings(&["--volume", "/ws/b:/host:z", "--volume", "/ws:/workspace:z"])[..]);
    assert_eq!(only_workspace[12], "--workdir");
    let checkout = project.get().init(&tools);
    assert_eq!(checkout.0[0], "init");
    assert_eq!(checkout.1, strings(&["sync"]));
    assert_eq!(project.get().command_line_flags(), vec![FlagId::new("mcs"), FlagId::new("smp")]);
    assert_eq!(Project::WORKSPACE_DOCKER_DIR, "/workspace");
    assert_eq!(Project::BUILD_DOCKER_DIR, "/build");
    assert_eq!(Project::CMAKE_CACHE_FILE, "settings.cmake");
}

#[test]
fn machine_queue_runs() {
    let config = catalog();
    let project = config.project(&ProjectId::new("sel4test")).unwrap();
    let build = context(&config, Setting::default());
    assert_eq!(
        project.get().try_mq_run(&build, "fallback", "haswell3", Some("images/kernel-x86_64-pc99"), "images/rs"),
        strings(&[
            "run",
            "-c",
            "All is well",
            "-s",
            "haswell3",
            "-f",
            "images/kernel-x86_64-pc99",
            "-f",
            "images/rs",
        ])
    );
    assert_eq!(
        project.get().try_mq_run(&build, "fallback", "haswell3", None, "images/rs"),
        strings(&["run", "-c", "All is well", "-s", "haswell3", "-f", "images/rs"])
    );
    let mut systems: StrMap<String, System> = StrMap::new();
    systems.insert("haswell3".to_string(), System { platform: PlatformId::new("pc99"), variation: None });
    systems.insert(
        "skylake".to_string(),
        System { platform: PlatformId::new("pc99"), variation: Some(VariationId::new("sky")) },
    );
    let pools: StrMap<String, StrSet<String>> = StrMap::new();
    assert_eq!(
        project.get().mq_run(&build, None, &systems, &pools),
        Ok(strings(&["haswell3", "skylake"]))
    );
    assert_eq!(project.get().mq_run(&build, Some("any"), &systems, &pools), Ok(strings(&["any"])));
    assert_eq!(
        project.get().mq_run(&build, None, &StrMap::new(), &pools),
        Err(Error::NoMatchingSystem("pc99".to_string(), None))
    );
    assert_eq!(Project::mq_outcome(&vec![false, true, true]), Ok(1));
    assert_eq!(Project::mq_outcome(&vec![false, false]), Err(Error::NoSystemRan));
    assert_eq!(Project::mq_outcome(&vec![]), Err(Error::NoSystemRan));
    assert_eq!(project.get().root_server_name(&build, None), Err(Error::ImagesMissing));
    assert_eq!(
        project.get().root_server_name(&build, Some(&strings(&["rs-image-x86_64-pc99"]))),
        Ok("rs".to_string())
    );
}

#[test]
fn architecture_support_is_checked() {
    let config = catalog();
    let platform = config.platform(&PlatformId::new("pc99")).unwrap();
    assert_eq!(Platform::check_architecture(&platform, Sel4Architecture::Ia32), Ok(()));
    assert_eq!(
        Platform::check_architecture(&platform, Sel4Architecture::AArch64),
        Err(Error::UnsupportedArchitecture(Sel4Architecture::AArch64, "pc99".to_string()))
    );
}

#[test]
fn catalogs_are_layered() {
    let base = catalog();
    let mut flags: NamedMap<Flag> = NamedMap::new();
    let mut alternative: StrMap<FlagId, Requirement> = StrMap::new();
    alternative.insert(FlagId::new("platform"), Requirement::Any(vec![Value::Text("pc99".to_string())]));
    flags.insert(FlagId::new("smp"), Flag::new("ignored", Some("KernelSMP"), vec![alternative]));
    flags.insert(FlagId::new("new"), Flag::new("new flag", None, vec![]));
    let mut projects: NamedMap<Project> = NamedMap::new();
    let mut command_line: StrSet<FlagId> = StrSet::new();
    command_line.insert(FlagId::new("new"));
    projects.insert(
        ProjectId::new("sel4test"),
        Project::new(
            Repository::parse("other/repo").unwrap(),
            Some("elsewhere".to_string()),
            None,
            None,
            command_line,
            setting(&[("hidden", Value::Boolean(false)), ("extra", Value::Boolean(true))]),
        ),
    );
    let mut arch: StrMap<Sel4Architecture, Setting> = StrMap::new();
    arch.insert(Sel4Architecture::X86_64, setting(&[("wide", Value::Boolean(true))]));
    let layer = Config::new(
        Defaults::new(None, Some("img".to_string()), None, None, None),
        flags,
        NamedMap::new(),
        arch,
        projects,
    );
    let config = Config::load(base, vec![layer]);
    assert_eq!(config.defaults().docker_image(), "img");
    let smp = config.flag(&FlagId::new("smp")).unwrap();
    assert_eq!(smp.get().description(), "multicore");
    assert_eq!(smp.get().variable(), &Some("KernelSMP".to_string()));
    let on = Value::Boolean(true);
    let id = FlagId::new("smp");
    assert_eq!(
        Flag::validate(NameRef::new(smp.get(), &id), &setting(&[("platform", Value::Text("pc99".to_string()))]), &on),
        Ok(())
    );
    assert_eq!(Flag::validate(NameRef::new(smp.get(), &id), &setting(&[("mcs", on.clone())]), &on), Ok(()));
    assert_eq!(
        Flag::validate(NameRef::new(smp.get(), &id), &Setting::default(), &on),
        Err(Error::Unsatisfied("smp".to_string()))
    );
    assert!(config.flag(&FlagId::new("new")).is_some());
    let project = config.project(&ProjectId::new("sel4test")).unwrap();
    assert_eq!(project.get().repository(), &Repository::parse("seL4/sel4test-manifest").unwrap());
    assert_eq!(project.get().source_directory(), &None);
    assert_eq!(
        project.get().command_line_flags(),
        vec![FlagId::new("mcs"), FlagId::new("new"), FlagId::new("smp")]
    );
    let resolved = config
        .platform_setting(&ProjectId::new("sel4test"), &PlatformId::new("pc99"), None, Sel4Architecture::X86_64)
        .unwrap();
    assert_eq!(resolved.flag(&FlagId::new("hidden")), Value::Boolean(false));
    assert_eq!(resolved.flag(&FlagId::new("extra")), Value::Boolean(true));
    assert_eq!(resolved.flag(&FlagId::new("wide")), Value::Boolean(true));
    assert_eq!(
        resolved.to_string(),
        "{ extra: true, hidden: false, kernel-platform: pc99, platform: pc99, wide: true }"
    );
    assert_eq!(Setting::default().to_string(), "{}");
    assert_eq!(
        Config::config_files(&strings(&["/home/me", "/home/me/.config"])),
        strings(&[
            "/home/me/.s4",
            "/home/me/.s4.toml",
            "/home/me/s4.toml",
            "/home/me/.config/.s4",
            "/home/me/.config/.s4.toml",
            "/home/me/.config/s4.toml",
        ])
    );
    let twice = Setting::from_entries(vec![
        (FlagId::new("a"), Value::Boolean(true)),
        (FlagId::new("b"), Value::Text("x".to_string())),
        (FlagId::new("a"), Value::Boolean(false)),
    ]);
    assert_eq!(twice, setting(&[("a", Value::Boolean(false)), ("b", Value::Text("x".to_string()))]));
}
