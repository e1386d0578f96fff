//! Descriptions of projects.

use vstd::prelude::*;
use vstd::string::StringExecFns;
use crate::cmake::{FlagId, Setting, ValueView};
use crate::config::{cmake_arguments, or_else, refused, valid_setting, Config, Merge, Named};
use crate::ordered::{lists, model_pairs, StrMap};
use crate::platform::{family, Architecture};
use crate::text::{opt_str, push_all, push_str, push_string};
use crate::tools::{candidates, repo_init_arguments, run_arguments, Apps, DockerImpl, System};
use crate::util::{child, child_path, push_path, pushed};
use crate::workspace::{infers, listing, BuildContext};
use crate::error::Error;
use crate::ordered::{lists_set, texts, Identifier, StrSet};
use crate::text::{concat3, ends_with, opt_text, split, split_str, str_ends_with};

verus! {

/// Identifier of a project.
#[derive(Debug, PartialEq, Eq, PartialOrd, Ord)]
pub struct ProjectId(String);

impl View for ProjectId {
    type V = Seq<char>;

    closed spec fn view(&self) -> Seq<char> {
        self.0@
    }
}

impl Identifier for ProjectId {
    open spec fn text(&self) -> Seq<char> {
        self@
    }

    fn as_str(&self) -> (s: &str) {
        self.0.as_str()
    }

    fn duplicate(&self) -> (r: Self) {
        ProjectId(self.0.clone())
    }
}

impl Clone for ProjectId {
    fn clone(&self) -> (r: Self)
        ensures
            r@ == self@,
    {
        ProjectId(self.0.clone())
    }
}

impl ProjectId {
    /// Special project name to use the project defined in the workspace
    /// repository.
    const AUTO: &'static str = "auto";

    /// The identifier spelled `name`.
    pub fn new(name: &str) -> (id: Self)
        ensures
            id@ == name@,
    {
        ProjectId(String::from_str(name))
    }

    /// The special project identifier that is used to define a project with
    /// its own repository.
    pub fn auto() -> (id: Self)
        ensures
            id@ == "auto"@,
    {
        ProjectId(String::from_str(Self::AUTO))
    }

    /// The name given to projects without an explicit configuration.
    pub fn unnamed() -> (id: Self)
        ensures
            id@ == Seq::<char>::empty(),
    {
        ProjectId(String::new())
    }

    /// The identifier as text.
    pub fn to_string(&self) -> (s: String)
        ensures
            s@ == self@,
    {
        self.0.clone()
    }
}

impl From<String> for ProjectId {
    fn from(s: String) -> (id: Self)
        ensures
            id@ == s@,
    {
        ProjectId(s)
    }
}

impl vstd::std_specs::convert::FromSpecImpl<String> for ProjectId {
    open spec fn obeys_from_spec() -> bool {
        false
    }

    open spec fn from_spec(s: String) -> Self {
        arbitrary()
    }
}

impl From<&str> for ProjectId {
    fn from(s: &str) -> (id: Self)
        ensures
            id@ == s@,
    {
        ProjectId::new(s)
    }
}

impl vstd::std_specs::convert::FromSpecImpl<&str> for ProjectId {
    open spec fn obeys_from_spec() -> bool {
        false
    }

    open spec fn from_spec(s: &str) -> Self {
        arbitrary()
    }
}

/// Repository of a project: an organisation and a name.
#[derive(Debug, PartialEq, Eq, PartialOrd, Ord)]
pub struct Repository(String, String);

impl View for Repository {
    type V = (Seq<char>, Seq<char>);

    closed spec fn view(&self) -> (Seq<char>, Seq<char>) {
        (self.0@, self.1@)
    }
}

/// The repository that a string spells: an organisation, a slash and a name
/// that does not end in `.git`.
pub open spec fn parsed_repository(s: Seq<char>) -> Option<(Seq<char>, Seq<char>)> {
    let parts = split(s, '/');
    if parts.len() == 2 && !ends_with(parts[1], ".git"@) {
        Some((parts[0], parts[1]))
    } else {
        None
    }
}

/// How a repository is written: the organisation, a slash and the name.
pub open spec fn repository_text(repository: (Seq<char>, Seq<char>)) -> Seq<char> {
    repository.0 + seq!['/'] + repository.1
}

/// A repository is read back from the way it is written, where neither
/// part holds a slash and the name does not end in `.git`.
pub proof fn lemma_repository_round_trip(organisation: Seq<char>, name: Seq<char>)
    requires
        !organisation.contains('/'),
        !name.contains('/'),
        !ends_with(name, ".git"@),
    ensures
        parsed_repository(repository_text((organisation, name))) == Some((organisation, name)),
{
    crate::text::lemma_split_pair(organisation, name, '/');
}

impl Default for Repository {
    fn default() -> (r: Self)
        ensures
            r@ == (Seq::<char>::empty(), Seq::<char>::empty()),
    {
        Repository(String::new(), String::new())
    }
}

impl Clone for Repository {
    fn clone(&self) -> (r: Self)
        ensures
            r@ == self@,
    {
        Repository(self.0.clone(), self.1.clone())
    }
}

impl Repository {
    /// The repository that `string` spells.
    pub fn parse(string: &str) -> (r: Result<Self, Error>)
        ensures
            match r {
                Ok(repository) => parsed_repository(string@) == Some(repository@),
                Err(e) => parsed_repository(string@) is None && (e matches Error::MalformedRepository(s)
                    && s@ == string@),
            },
    {
        let parts = split_str(string, '/');
        if parts.len() == 2 && !str_ends_with(parts[1].as_str(), ".git") {
            Ok(Repository(parts[0].clone(), parts[1].clone()))
        } else {
            Err(Error::MalformedRepository(String::from_str(string)))
        }
    }

    /// The organisation that owns the repository.
    pub fn organisation(&self) -> (s: &str)
        ensures
            s@ == self@.0,
    {
        self.0.as_str()
    }

    /// The name of the repository within its organisation.
    pub fn name(&self) -> (s: &str)
        ensures
            s@ == self@.1,
    {
        self.1.as_str()
    }

    /// The repository as it is written.
    pub fn to_string(&self) -> (s: String)
        ensures
            s@ == repository_text(self@),
    {
        proof {
            reveal_strlit("/");
            assert("/"@ =~= seq!['/']);
        }
        concat3(self.0.as_str(), "/", self.1.as_str())
    }
}

impl core::str::FromStr for Repository {
    type Err = Error;

    fn from_str(string: &str) -> (r: Result<Self, Error>)
        ensures
            match r {
                Ok(repository) => parsed_repository(string@) == Some(repository@),
                Err(e) => parsed_repository(string@) is None && (e matches Error::MalformedRepository(s)
                    && s@ == string@),
            },
    {
        Repository::parse(string)
    }
}

/// The model of a [`Project`].
pub struct ProjectView {
    pub repository: (Seq<char>, Seq<char>),
    pub source_directory: Option<Seq<char>>,
    pub root_server: Option<Seq<char>>,
    pub exit_phrase: Option<Seq<char>>,
    pub command_line: Set<Seq<char>>,
    pub setting: Map<Seq<char>, ValueView>,
}

/// A project: where it comes from, where its sources lie, and the setting
/// it is built with.
#[derive(Debug, Clone, PartialEq, Eq)]
pub struct Project {
    repository: Repository,
    /// Path to the source directory of the build generator.
    source_directory: Option<String>,
    /// Name of the root server binary.
    root_server: Option<String>,
    /// Phrase used to indicate the root server has completed.
    exit_phrase: Option<String>,
    /// Flags to make available via the command line when configuring a
    /// build directory.
    command_line: StrSet<FlagId>,
    setting: Setting,
}

impl View for Project {
    type V = ProjectView;

    closed spec fn view(&self) -> ProjectView {
        ProjectView {
            repository: self.repository@,
            source_directory: opt_text(self.source_directory),
            root_server: opt_text(self.root_server),
            exit_phrase: opt_text(self.exit_phrase),
            command_line: self.command_line@,
            setting: self.setting@,
        }
    }
}

impl Project {
    /// A project of the given repository with its own setting.
    pub fn new(
        repository: Repository,
        source_directory: Option<String>,
        root_server: Option<String>,
        exit_phrase: Option<String>,
        command_line: StrSet<FlagId>,
        setting: Setting,
    ) -> (r: Self)
        ensures
            r@ == (ProjectView {
                repository: repository@,
                source_directory: opt_text(source_directory),
                root_server: opt_text(root_server),
                exit_phrase: opt_text(exit_phrase),
                command_line: command_line@,
                setting: setting@,
            }),
    {
        Project { repository, source_directory, root_server, exit_phrase, command_line, setting }
    }

    /// The project's own setting.
    pub fn setting(&self) -> (r: &Setting)
        ensures
            r@ == self@.setting,
    {
        &self.setting
    }

    /// The repository that the project comes from.
    pub fn repository(&self) -> (r: &Repository)
        ensures
            r@ == self@.repository,
    {
        &self.repository
    }

    /// The source directory, where the project names one.
    pub fn source_directory(&self) -> (r: &Option<String>)
        ensures
            opt_text(*r) == self@.source_directory,
    {
        &self.source_directory
    }

    /// The root server binary, where the project names one.
    pub fn root_server(&self) -> (r: &Option<String>)
        ensures
            opt_text(*r) == self@.root_server,
    {
        &self.root_server
    }

    /// The phrase that ends a run, where the project names one.
    pub fn exit_phrase(&self) -> (r: &Option<String>)
        ensures
            opt_text(*r) == self@.exit_phrase,
    {
        &self.exit_phrase
    }

    /// Flags that should appear on the command line, in the order of their
    /// names.
    pub fn command_line_flags(&self) -> (r: Vec<FlagId>)
        ensures
            lists_set(texts(r@), self@.command_line),
    {
        let n = self.command_line.len();
        let mut r: Vec<FlagId> = Vec::new();
        let mut i: usize = 0;
        while i < n
            invariant
                i <= n,
                n == self.command_line.items().len(),
                r@.len() == i,
                forall|j: int| 0 <= j < i ==> (#[trigger] r@[j])@ == self.command_line.items()[j],
            decreases n - i,
        {
            r.push(self.command_line.item(i).clone());
            i += 1;
        }
        assert(texts(r@) =~= self.command_line.items());
        r
    }
}

/// Of a project only the command-line flags and the setting are layered;
/// the rest stays as the first layer gave it.
impl Merge for Project {
    open spec fn merged(a: ProjectView, b: ProjectView) -> ProjectView {
        ProjectView {
            command_line: a.command_line.union(b.command_line),
            setting: Setting::merged(a.setting, b.setting),
            ..a
        }
    }

    fn merge(&mut self, other: Self) {
        self.command_line.merge(other.command_line);
        self.setting.merge(other.setting);
    }
}

impl Named for Project {
    type Id = ProjectId;
}

/// The host directories that are mounted into the container, each as its
/// canonical path.
#[derive(Debug, Clone, PartialEq, Eq)]
pub struct HostPaths {
    /// The directory that the tool was started in.
    pub current: String,
    /// The root of the workspace.
    pub workspace: String,
    /// The build directory.
    pub build: String,
}

/// The mounts of a build: the three host directories, each at its place in
/// the container.
pub open spec fn build_mounts(current: Seq<char>, workspace: Seq<char>, build: Seq<char>) -> Map<
    Seq<char>,
    Seq<char>,
> {
    Map::<Seq<char>, Seq<char>>::empty().insert("/host"@, current).insert("/workspace"@, workspace).insert(
        "/build"@,
        build,
    )
}

/// Whether the arguments run the build generator in the container with the
/// setting handed over: the run of `cmake` with the three mounts, from the
/// build directory, and then the arguments of the setting.
pub open spec fn runs_cmake(
    arguments: Seq<Seq<char>>,
    engine: DockerImpl,
    image: Seq<char>,
    mounts: Map<Seq<char>, Seq<char>>,
    passed: Seq<Seq<char>>,
) -> bool {
    exists|uid: nat, gid: nat, listed: Seq<(Seq<char>, Seq<char>)>| #[trigger]
        lists(listed, mounts) && arguments == #[trigger] run_arguments(
            engine,
            uid,
            gid,
            listed,
            "/build"@,
            image,
            "cmake"@,
        ) + passed
}

/// The arguments that configure a new build directory from the sources.
pub open spec fn generator_arguments(source: Seq<char>) -> Seq<Seq<char>> {
    seq![
        "-G"@,
        "Ninja"@,
        "-DSEL4_CACHE_DIR=/workspace/.sel4_cache"@,
        "-B"@,
        "/build"@,
        "-S"@,
        pushed("/workspace"@, source),
        "-C"@,
        child(pushed("/workspace"@, source), "settings.cmake"@),
    ]
}

/// The arguments that run a build on a system of the machine queue.
pub open spec fn queue_arguments(
    phrase: Seq<char>,
    system: Seq<char>,
    kernel: Option<Seq<char>>,
    image: Seq<char>,
) -> Seq<Seq<char>> {
    seq!["run"@, "-c"@, phrase, "-s"@, system] + (match kernel {
        Some(path) => seq!["-f"@, path],
        None => Seq::empty(),
    }) + seq!["-f"@, image]
}

impl Project {
    pub const WORKSPACE_DOCKER_DIR: &'static str = "/workspace";

    pub const BUILD_DOCKER_DIR: &'static str = "/build";

    pub const CMAKE_CACHE_FILE: &'static str = "settings.cmake";

    /// The two runs of the manifest tool that check the project out: the
    /// arguments that initialise the checkout, and those that fetch it.
    pub fn init(&self, apps: &Apps) -> (r: (Vec<String>, Vec<String>))
        ensures
            texts(r.0@) == repo_init_arguments(
                or_else(apps.defaults_view().git_server, "https://github.com"@) + "/"@ + repository_text(
                    self@.repository,
                ) + ".git"@,
                apps.defaults_view().repo_branch,
                apps.defaults_view().repo_manifest,
            ),
            texts(r.1@) == seq!["sync"@],
    {
        let first = apps.repo_init(&self.repository);
        let mut second: Vec<String> = Vec::new();
        assert(texts(second@) =~= Seq::<Seq<char>>::empty());
        push_str(&mut second, "sync");
        assert(texts(second@) =~= seq!["sync"@]);
        (first, second)
    }

    /// The arguments for the container engine that run the build generator
    /// with the setting of the build, once the setting is found valid.
    fn cmake(&self, context: &BuildContext, apps: &Apps, config: &Config, paths: &HostPaths) -> (r: Result<
        Vec<String>,
        Error,
    >)
        ensures
            match r {
                Ok(arguments) => valid_setting(config@.flags, context@.build.setting) && runs_cmake(
                    texts(arguments@),
                    apps.engine(),
                    or_else(apps.defaults_view().docker_image, "docker.io/trustworthysystems/camkes-riscv"@),
                    build_mounts(paths.current@, paths.workspace@, paths.build@),
                    cmake_arguments(config@.flags, context.setting_entries()),
                ),
                Err(e) => !valid_setting(config@.flags, context@.build.setting) && refused(
                    config@.flags,
                    context.setting_entries(),
                    context@.build.setting,
                    e,
                ),
            },
    {
        // Make sure we can actually build with the given settings
        let checked = config.check_setting(context.setting());
        if let Err(e) = checked {
            return Err(e);
        }
        let docker = apps.docker(paths.current.clone()).mount(
            Self::WORKSPACE_DOCKER_DIR,
            paths.workspace.clone(),
        ).mount(Self::BUILD_DOCKER_DIR, paths.build.clone()).work_dir(Self::BUILD_DOCKER_DIR);
        let ghost listed = docker.mounts_listed();
        let ghost run = docker;
        let mut command = docker.run("cmake");
        let ghost head = texts(command@);

        // Add the command line arguments to be set directly
        let passed = config.cmake_args(context.setting());
        push_all(&mut command, passed);
        proof {
            let (uid, gid) = choose|uid: nat, gid: nat|
                head == #[trigger] run_arguments(
                    run.apps().engine(),
                    uid,
                    gid,
                    run.mounts_listed(),
                    run.work_dir_view(),
                    or_else(run.apps().defaults_view().docker_image, "docker.io/trustworthysystems/camkes-riscv"@),
                    "cmake"@,
                );
            assert(lists(listed, build_mounts(paths.current@, paths.workspace@, paths.build@)));
            assert(texts(command@) == run_arguments(
                apps.engine(),
                uid,
                gid,
                listed,
                "/build"@,
                or_else(apps.defaults_view().docker_image, "docker.io/trustworthysystems/camkes-riscv"@),
                "cmake"@,
            ) + cmake_arguments(config@.flags, context.setting_entries()));
        }
        Ok(command)
    }

    /// The arguments for the container engine that configure a new build
    /// directory: the run of the build generator, then the generator, the
    /// cache, the build directory and the sources. The sources lie where the
    /// project says, or else where they were inferred to lie.
    pub fn init_build(
        &self,
        context: &BuildContext,
        apps: &Apps,
        config: &Config,
        paths: &HostPaths,
        inferred_source: Option<&str>,
    ) -> (r: Result<Vec<String>, Error>)
        ensures
            match r {
                Ok(arguments) => valid_setting(config@.flags, context@.build.setting) && (self@.source_directory is Some
                    || inferred_source is Some) && exists|head: Seq<Seq<char>>| #[trigger]
                    runs_cmake(
                        head,
                        apps.engine(),
                        or_else(apps.defaults_view().docker_image, "docker.io/trustworthysystems/camkes-riscv"@),
                        build_mounts(paths.current@, paths.workspace@, paths.build@),
                        cmake_arguments(config@.flags, context.setting_entries()),
                    ) && texts(arguments@) == head + generator_arguments(
                        or_else(self@.source_directory, or_else(opt_str(inferred_source), Seq::empty())),
                    ),
                Err(Error::NoSourceDirectory) => valid_setting(config@.flags, context@.build.setting)
                    && self@.source_directory is None && inferred_source is None,
                Err(e) => !valid_setting(config@.flags, context@.build.setting) && refused(
                    config@.flags,
                    context.setting_entries(),
                    context@.build.setting,
                    e,
                ),
            },
    {
        let mut command = match self.cmake(context, apps, config, paths) {
            Ok(command) => command,
            Err(e) => {
                return Err(e);
            },
        };
        let ghost head = texts(command@);
        let source_directory = match &self.source_directory {
            Some(directory) => directory.as_str(),
            None => match inferred_source {
                Some(directory) => directory,
                None => {
                    return Err(Error::NoSourceDirectory);
                },
            },
        };

        // Always generate ninja builds
        push_str(&mut command, "-G");
        push_str(&mut command, "Ninja");

        // Use the workspace cache directory
        push_str(&mut command, "-DSEL4_CACHE_DIR=/workspace/.sel4_cache");

        // Use the build directory as mapped into the container
        push_str(&mut command, "-B");
        push_str(&mut command, Self::BUILD_DOCKER_DIR);

        // Use the source directory as mapped into the container
        let source_dir = push_path(Self::WORKSPACE_DOCKER_DIR, source_directory);
        push_str(&mut command, "-S");
        push_str(&mut command, source_dir.as_str());

        // Use the cache file from the source directory
        push_str(&mut command, "-C");
        push_string(&mut command, child_path(source_dir.as_str(), Self::CMAKE_CACHE_FILE));
        assert(texts(command@) =~= head + generator_arguments(source_directory@));
        Ok(command)
    }

    /// The arguments for the container engine that configure an existing
    /// build directory again: the run of the build generator, then the
    /// build directory.
    pub fn update_build(&self, context: &BuildContext, apps: &Apps, config: &Config, paths: &HostPaths) -> (r: Result<
        Vec<String>,
        Error,
    >)
        ensures
            match r {
                Ok(arguments) => valid_setting(config@.flags, context@.build.setting) && exists|head: Seq<Seq<char>>| #[trigger]
                    runs_cmake(
                        head,
                        apps.engine(),
                        or_else(apps.defaults_view().docker_image, "docker.io/trustworthysystems/camkes-riscv"@),
                        build_mounts(paths.current@, paths.workspace@, paths.build@),
                        cmake_arguments(config@.flags, context.setting_entries()),
                    ) && texts(arguments@) == head.push("/build"@),
                Err(e) => !valid_setting(config@.flags, context@.build.setting) && refused(
                    config@.flags,
                    context.setting_entries(),
                    context@.build.setting,
                    e,
                ),
            },
    {
        let mut command = match self.cmake(context, apps, config, paths) {
            Ok(command) => command,
            Err(e) => {
                return Err(e);
            },
        };
        push_str(&mut command, Self::BUILD_DOCKER_DIR);
        Ok(command)
    }

    /// The systems and pools of the machine queue to run the build on, in
    /// the order in which to try them: the one that is named, or else the
    /// candidates that the inventories give for the build's platform and
    /// variation.
    pub fn mq_run(
        &self,
        context: &BuildContext,
        system: Option<&str>,
        systems: &StrMap<String, System>,
        pools: &StrMap<String, StrSet<String>>,
    ) -> (r: Result<Vec<String>, Error>)
        ensures
            match r {
                Ok(names) => match system {
                    Some(named) => texts(names@) == seq![named@],
                    None => names@.len() > 0 && texts(names@) == candidates(
                        model_pairs(systems.pairs()),
                        model_pairs(pools.pairs()),
                        context@.build.platform,
                        context@.build.variation,
                    ),
                },
                Err(e) => system is None && candidates(
                    model_pairs(systems.pairs()),
                    model_pairs(pools.pairs()),
                    context@.build.platform,
                    context@.build.variation,
                ).len() == 0 && (e matches Error::NoMatchingSystem(p, v) && p@ == context@.build.platform && opt_text(v)
                    == context@.build.variation),
            },
    {
        match system {
            Some(named) => {
                let mut names: Vec<String> = Vec::new();
                assert(texts(names@) =~= Seq::<Seq<char>>::empty());
                push_str(&mut names, named);
                assert(texts(names@) =~= seq![named@]);
                Ok(names)
            },
            None => Apps::machine_queue_match_system(context.platform(), context.variation(), systems, pools),
        }
    }

    /// The candidate that ran the build: the first whose run succeeded,
    /// given the outcomes of the runs in the order in which they were tried.
    pub fn mq_outcome(outcomes: &Vec<bool>) -> (r: Result<usize, Error>)
        ensures
            match r {
                Ok(i) => i < outcomes@.len() && outcomes@[i as int] && forall|j: int| 0 <= j < i ==> !outcomes@[j],
                Err(e) => e is NoSystemRan && forall|j: int| 0 <= j < outcomes@.len() ==> !outcomes@[j],
            },
    {
        let mut i: usize = 0;
        while i < outcomes.len()
            invariant
                i <= outcomes.len(),
                forall|j: int| 0 <= j < i ==> !outcomes@[j],
            decreases outcomes.len() - i,
        {
            if outcomes[i] {
                return Ok(i);
            }
            i += 1;
        }
        Err(Error::NoSystemRan)
    }

    /// The name of the root server: the one that the project names, or else
    /// the one that the images of the build give.
    pub fn root_server_name(&self, context: &BuildContext, images: Option<&Vec<String>>) -> (r: Result<
        String,
        Error,
    >)
        ensures
            match self@.root_server {
                Some(name) => r matches Ok(given) && given@ == name,
                None => infers(context@.build.architecture, context@.build.platform, listing(images), r),
            },
    {
        match &self.root_server {
            Some(name) => Ok(name.clone()),
            None => context.inferred_root_server(images),
        }
    }

    /// The arguments for the client of the machine queue that run the build
    /// on a system: the phrase that ends the run, the project's or else the
    /// given one, the system, and the files to load: for the x86 family the
    /// kernel image where one is given, and the image of the root server.
    pub fn try_mq_run(
        &self,
        context: &BuildContext,
        exit_phrase: &str,
        system: &str,
        kernel_image: Option<&str>,
        image: &str,
    ) -> (r: Vec<String>)
        ensures
            texts(r@) == queue_arguments(
                or_else(self@.exit_phrase, exit_phrase@),
                system@,
                if family(context@.build.architecture) == Architecture::X86 {
                    opt_str(kernel_image)
                } else {
                    None
                },
                image@,
            ),
    {
        let mut command: Vec<String> = Vec::new();
        assert(texts(command@) =~= Seq::<Seq<char>>::empty());
        push_str(&mut command, "run");
        push_str(&mut command, "-c");
        push_str(
            &mut command,
            match &self.exit_phrase {
                Some(phrase) => phrase.as_str(),
                None => exit_phrase,
            },
        );
        push_str(&mut command, "-s");
        push_str(&mut command, system);
        if context.needs_kernel_image() {
            if let Some(kernel) = kernel_image {
                push_str(&mut command, "-f");
                push_str(&mut command, kernel);
            }
        }
        push_str(&mut command, "-f");
        push_str(&mut command, image);
        assert(texts(command@) =~= queue_arguments(
            or_else(self@.exit_phrase, exit_phrase@),
            system@,
            if family(context@.build.architecture) == Architecture::X86 {
                opt_str(kernel_image)
            } else {
                None
            },
            image@,
        ));
        command
    }
}

} // verus!
