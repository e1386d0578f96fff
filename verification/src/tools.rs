//! The command-line tools that the build is driven with, and what their
//! reports say: the container engine and the machine queue.

use vstd::prelude::*;
use vstd::string::StringExecFns;
use crate::error::Error;
use crate::ordered::{lists, model_pairs, texts, Identifier, StrMap, StrSet};
use crate::platform::{PlatformId, VariationId};
use crate::config::{or_else, Defaults, DefaultsView};
use crate::project::{repository_text, Repository};
use crate::text::{
    chars_of, concat3, contains_text, decimal, decimal_string, find_char, first_index, opt_str, opt_text, push_str,
    push_string, slice, split, split_str, str_contains, str_eq, trim, trimmed,
};
use crate::util::{child, child_path, push_path, pushed};

verus! {

/// The model of a [`System`]: its platform and, where it has one, its
/// variation.
pub struct SystemView {
    pub platform: Seq<char>,
    pub variation: Option<Seq<char>>,
}

/// A system of the machine queue: a piece of hardware of some platform.
#[derive(Debug, Clone, PartialEq, Eq)]
pub struct System {
    pub platform: PlatformId,
    pub variation: Option<VariationId>,
}

impl View for System {
    type V = SystemView;

    open spec fn view(&self) -> SystemView {
        SystemView {
            platform: self.platform@,
            variation: match self.variation {
                Some(v) => Some(v@),
                None => None,
            },
        }
    }
}

/// Whether a system serves a request for a platform and, where one is asked
/// for, a variation.
pub open spec fn serves(system: SystemView, platform: Seq<char>, variation: Option<Seq<char>>) -> bool {
    system.platform == platform && (variation is None || variation == system.variation)
}

/// The names of the systems that serve a request, in the order of the
/// inventory.
pub open spec fn serving(
    systems: Seq<(Seq<char>, SystemView)>,
    platform: Seq<char>,
    variation: Option<Seq<char>>,
) -> Seq<Seq<char>>
    decreases systems.len(),
{
    if systems.len() == 0 {
        Seq::empty()
    } else {
        let rest = serving(systems.drop_last(), platform, variation);
        if serves(systems.last().1, platform, variation) {
            rest.push(systems.last().0)
        } else {
            rest
        }
    }
}

/// The names of the pools all of whose members are among `members`, the last
/// such pool of the inventory first.
pub open spec fn covered_pools(pools: Seq<(Seq<char>, Set<Seq<char>>)>, members: Set<Seq<char>>) -> Seq<Seq<char>>
    decreases pools.len(),
{
    if pools.len() == 0 {
        Seq::empty()
    } else {
        let rest = covered_pools(pools.drop_last(), members);
        if pools.last().1.subset_of(members) {
            seq![pools.last().0] + rest
        } else {
            rest
        }
    }
}

/// The candidates for a request: the pools that consist of serving systems
/// only, then the serving systems themselves.
pub open spec fn candidates(
    systems: Seq<(Seq<char>, SystemView)>,
    pools: Seq<(Seq<char>, Set<Seq<char>>)>,
    platform: Seq<char>,
    variation: Option<Seq<char>>,
) -> Seq<Seq<char>> {
    let names = serving(systems, platform, variation);
    covered_pools(pools, names.to_set()) + names
}

/// The name of the variation that is asked for, if one is.
pub open spec fn wanted(variation: Option<&VariationId>) -> Option<Seq<char>> {
    match variation {
        Some(v) => Some(v@),
        None => None,
    }
}

/// Whether a system serves a request.
fn system_serves(system: &System, platform: &PlatformId, variation: Option<&VariationId>) -> (r: bool)
    ensures
        r == serves(system@, platform@, wanted(variation)),
{
    if !str_eq(platform.as_str(), system.platform.as_str()) {
        return false;
    }
    match variation {
        None => true,
        Some(asked) => match &system.variation {
            Some(has) => str_eq(asked.as_str(), has.as_str()),
            None => false,
        },
    }
}

impl<'d> Apps<'d> {
    /// Selects the candidates of the machine queue for a platform and, where one
    /// is asked for, a variation: first each pool whose members all serve the
    /// request, then the systems that serve it. Callers try them in this order.
    pub fn machine_queue_match_system(
        platform: &PlatformId,
        variation: Option<&VariationId>,
        systems: &StrMap<String, System>,
        pools: &StrMap<String, StrSet<String>>,
    ) -> (r: Result<Vec<String>, Error>)
        ensures
            match r {
                Ok(names) => names@.len() > 0 && texts(names@) == candidates(
                    model_pairs(systems.pairs()),
                    model_pairs(pools.pairs()),
                    platform@,
                    wanted(variation),
                ),
                Err(e) => candidates(
                    model_pairs(systems.pairs()),
                    model_pairs(pools.pairs()),
                    platform@,
                    wanted(variation),
                ).len() == 0 && (e matches Error::NoMatchingSystem(p, v) && p@ == platform@ && crate::text::opt_text(v)
                    == wanted(variation)),
            },
    {
        let ghost all = model_pairs(systems.pairs());
        let ghost groups = model_pairs(pools.pairs());
        let ghost want = wanted(variation);
        let mut names: Vec<String> = Vec::new();
        let mut members: StrSet<String> = StrSet::new();
        let n = systems.len();
        let mut i: usize = 0;
        assert(all.take(0) =~= Seq::empty());
        assert(texts(names@) =~= Seq::<Seq<char>>::empty());
        while i < n
            invariant
                i <= n,
                n == systems.pairs().len(),
                all == model_pairs(systems.pairs()),
                want == wanted(variation),
                texts(names@) == serving(all.take(i as int), platform@, want),
                members@ == texts(names@).to_set(),
            decreases n - i,
        {
            let ghost before = texts(names@);
            assert(all.take(i + 1).drop_last() =~= all.take(i as int));
            if system_serves(systems.value(i), platform, variation) {
                let name = systems.key(i);
                names.push(name.clone());
                members.insert(name.clone());
                assert(texts(names@) =~= before.push(name@));
                proof {
                    let after = before.push(name@);
                    assert(members@ == before.to_set().insert(name@));
                    assert forall|k: Seq<char>| after.to_set().contains(k) <==> before.to_set().insert(name@).contains(k) by {
                        if before.contains(k) {
                            let j = before.index_of(k);
                            assert(after[j] == k);
                        }
                        if k == name@ {
                            assert(after[before.len() as int] == k);
                        }
                        if after.contains(k) {
                            let j = after.index_of(k);
                            if j < before.len() {
                                assert(before[j] == k);
                            }
                        }
                    }
                    assert(members@ =~= after.to_set());
                }
            }
            i += 1;
        }
        assert(all.take(n as int) =~= all);

        let mut front: Vec<String> = Vec::new();
        let m = pools.len();
        let mut j: usize = 0;
        assert(groups.take(0) =~= Seq::empty());
        assert(texts(front@) =~= Seq::<Seq<char>>::empty());
        while j < m
            invariant
                j <= m,
                m == pools.pairs().len(),
                groups == model_pairs(pools.pairs()),
                texts(front@) == covered_pools(groups.take(j as int), members@),
            decreases m - j,
        {
            let ghost before = texts(front@);
            assert(groups.take(j + 1).drop_last() =~= groups.take(j as int));
            if pools.value(j).is_subset(&members) {
                let name = pools.key(j);
                front.insert(0, name.clone());
                assert(texts(front@) =~= seq![name@] + before);
            }
            j += 1;
        }
        assert(groups.take(m as int) =~= groups);

        let ghost first = texts(front@);
        let ghost second = texts(names@);
        front.append(&mut names);
        assert(texts(front@) =~= first + second);
        if front.len() > 0 {
            Ok(front)
        } else {
            Err(Error::NoMatchingSystem(
                platform.to_string(),
                match variation {
                    Some(v) => Some(v.to_string()),
                    None => None,
                },
            ))
        }
    }
}

/// The field of a line that stands in the column of the given heading: that
/// of the last such column which the line reaches, if there is one.
pub open spec fn field(headings: Seq<Seq<char>>, fields: Seq<Seq<char>>, name: Seq<char>) -> Option<Seq<char>> {
    field_upto(
        headings,
        fields,
        name,
        if headings.len() <= fields.len() {
            headings.len() as int
        } else {
            fields.len() as int
        },
    )
}

/// The field under the given heading among the first `n` columns.
pub open spec fn field_upto(headings: Seq<Seq<char>>, fields: Seq<Seq<char>>, name: Seq<char>, n: int) -> Option<
    Seq<char>,
>
    decreases n,
{
    if n <= 0 {
        None
    } else if headings[n - 1] == name {
        Some(fields[n - 1])
    } else {
        field_upto(headings, fields, name, n - 1)
    }
}

/// The system that a platform field describes: the platform, or the
/// platform, a colon and the variation.
pub open spec fn system_of(plat: Seq<char>) -> SystemView {
    let i = first_index(plat, ':');
    if 0 <= i < plat.len() {
        SystemView { platform: plat.take(i), variation: Some(plat.skip(i + 1)) }
    } else {
        SystemView { platform: plat, variation: None }
    }
}

/// The systems that the first `n` lines of a report list. The first line
/// holds the headings; each later line that has a name and a platform adds a
/// system, in place of an earlier one of the same name.
pub open spec fn systems_upto(lines: Seq<Seq<char>>, n: int) -> Map<Seq<char>, SystemView>
    decreases n,
{
    if n <= 1 {
        Map::empty()
    } else {
        let before = systems_upto(lines, n - 1);
        let headings = split(lines[0], '\t');
        let fields = split(lines[n - 1], '\t');
        match (field(headings, fields, "name"@), field(headings, fields, "sel4_plat"@)) {
            (Some(name), Some(plat)) => before.insert(name, system_of(plat)),
            _ => before,
        }
    }
}

/// The inventory of systems that a tab-separated report lists.
pub open spec fn parsed_systems(report: Seq<char>) -> Map<Seq<char>, SystemView> {
    let lines = split(report, '\n');
    systems_upto(lines, lines.len() as int)
}

/// The pools that the first `n` lines of a report list: each line names a
/// pool and then its members.
pub open spec fn pools_upto(lines: Seq<Seq<char>>, n: int) -> Map<Seq<char>, Set<Seq<char>>>
    decreases n,
{
    if n <= 0 {
        Map::empty()
    } else {
        let fields = split(trimmed(lines[n - 1]), '\t');
        pools_upto(lines, n - 1).insert(fields[0], fields.skip(1).to_set())
    }
}

/// The inventory of pools that a tab-separated report lists.
pub open spec fn parsed_pools(report: Seq<char>) -> Map<Seq<char>, Set<Seq<char>>> {
    let lines = split(trimmed(report), '\n');
    pools_upto(lines, lines.len() as int)
}

/// A split gives at least one piece.
pub proof fn lemma_split_nonempty(s: Seq<char>, c: char)
    ensures
        split(s, c).len() >= 1,
    decreases s.len(),
{
    let i = first_index(s, c);
    if 0 <= i < s.len() {
        lemma_split_nonempty(s.skip(i + 1), c);
    }
}

/// The position of the last of the first `n` headings that is `name`.
fn find_field(headings: &Vec<String>, fields: &Vec<String>, name: &str) -> (r: Option<usize>)
    ensures
        match r {
            Some(i) => i < headings@.len() && i < fields@.len() && field(texts(headings@), texts(fields@), name@)
                == Some(fields@[i as int]@),
            None => field(texts(headings@), texts(fields@), name@) is None,
        },
{
    let n = if headings.len() <= fields.len() {
        headings.len()
    } else {
        fields.len()
    };
    let mut found: Option<usize> = None;
    let mut i: usize = 0;
    while i < n
        invariant
            i <= n,
            n <= headings@.len(),
            n <= fields@.len(),
            match found {
                Some(k) => k < i && field_upto(texts(headings@), texts(fields@), name@, i as int) == Some(
                    fields@[k as int]@,
                ),
                None => field_upto(texts(headings@), texts(fields@), name@, i as int) is None,
            },
        decreases n - i,
    {
        if str_eq(headings[i].as_str(), name) {
            found = Some(i);
        }
        i += 1;
    }
    found
}

/// The system that a platform field describes.
fn parse_system(plat: &str) -> (r: System)
    ensures
        r@ == system_of(plat@),
{
    let chars = chars_of(plat);
    let i = find_char(&chars, ':', 0);
    assert(plat@.skip(0) =~= plat@);
    if i < chars.len() {
        proof {
            assert(plat@.take(i as int) =~= plat@.subrange(0, i as int));
            assert(plat@.skip(i + 1) =~= plat@.subrange(i + 1, plat@.len() as int));
        }
        System {
            platform: PlatformId::from(slice(plat, 0, i)),
            variation: Some(VariationId::from(slice(plat, i + 1, chars.len()))),
        }
    } else {
        System { platform: PlatformId::new(plat), variation: None }
    }
}

impl<'d> Apps<'d> {
    /// Reads the inventory of systems from the report of the machine queue: tab
    /// separated lines, of which the first names the columns.
    pub fn machine_queue_systems(report: &str) -> (systems: StrMap<String, System>)
        ensures
            systems@ == parsed_systems(report@),
    {
        let lines = split_str(report, '\n');
        proof {
            lemma_split_nonempty(report@, '\n');
        }
        let headings = split_str(lines[0].as_str(), '\t');
        let mut systems: StrMap<String, System> = StrMap::new();
        let ghost all = split(report@, '\n');
        assert(systems@ =~= systems_upto(all, 1));
        let mut i: usize = 1;
        while i < lines.len()
            invariant
                1 <= i <= lines@.len(),
                lines@.len() == all.len(),
                forall|k: int| 0 <= k < lines@.len() ==> (#[trigger] lines@[k])@ == all[k],
                texts(headings@) == split(all[0], '\t'),
                systems@ == systems_upto(all, i as int),
            decreases lines.len() - i,
        {
            let fields = split_str(lines[i].as_str(), '\t');
            assert(texts(fields@) =~= split(all[i as int], '\t'));
            let name = find_field(&headings, &fields, "name");
            let plat = find_field(&headings, &fields, "sel4_plat");
            match (name, plat) {
                (Some(a), Some(b)) => {
                    let system = parse_system(fields[b].as_str());
                    proof {
                        crate::ordered::lemma_models_insert(systems.map(), fields@[a as int]@, system);
                    }
                    systems.insert(fields[a].clone(), system);
                },
                _ => {},
            }
            i += 1;
        }
        systems
    }
}

impl<'d> Apps<'d> {
    /// Reads the inventory of pools from the report of the machine queue: each
    /// line holds the name of a pool and then the names of its members, with
    /// tabs between them.
    pub fn machine_queue_pools(report: &str) -> (pools: StrMap<String, StrSet<String>>)
        ensures
            pools@ == parsed_pools(report@),
    {
        let body = trim(report);
        let lines = split_str(body.as_str(), '\n');
        let ghost all = split(trimmed(report@), '\n');
        let mut pools: StrMap<String, StrSet<String>> = StrMap::new();
        assert(pools@ =~= pools_upto(all, 0));
        let mut i: usize = 0;
        while i < lines.len()
            invariant
                i <= lines@.len(),
                lines@.len() == all.len(),
                forall|k: int| 0 <= k < lines@.len() ==> (#[trigger] lines@[k])@ == all[k],
                pools@ == pools_upto(all, i as int),
            decreases lines.len() - i,
        {
            let line = trim(lines[i].as_str());
            let fields = split_str(line.as_str(), '\t');
            let ghost parts = split(trimmed(all[i as int]), '\t');
            proof {
                lemma_split_nonempty(trimmed(all[i as int]), '\t');
            }
            assert(texts(fields@) =~= parts);
            let mut members: StrSet<String> = StrSet::new();
            let mut j: usize = 1;
            assert(parts.subrange(1, 1) =~= Seq::empty());
            assert(members@ =~= parts.subrange(1, 1).to_set());
            while j < fields.len()
                invariant
                    1 <= j <= fields@.len(),
                    texts(fields@) == parts,
                    members@ == parts.subrange(1, j as int).to_set(),
                decreases fields.len() - j,
            {
                let ghost before = parts.subrange(1, j as int);
                members.insert(fields[j].clone());
                proof {
                    let after = parts.subrange(1, j + 1);
                    assert(after =~= before.push(parts[j as int]));
                    assert(fields@[j as int]@ == parts[j as int]);
                    assert forall|k: Seq<char>| after.to_set().contains(k) <==> before.to_set().insert(parts[j as int]).contains(k) by {
                        if before.contains(k) {
                            let x = before.index_of(k);
                            assert(after[x] == k);
                        }
                        if k == parts[j as int] {
                            assert(after[before.len() as int] == k);
                        }
                        if after.contains(k) {
                            let x = after.index_of(k);
                            if x < before.len() {
                                assert(before[x] == k);
                            }
                        }
                    }
                    assert(members@ =~= after.to_set());
                }
                j += 1;
            }
            assert(parts.subrange(1, fields@.len() as int) =~= parts.skip(1));
            proof {
                assert(fields@[0]@ == parts[0]);
                crate::ordered::lemma_models_insert(pools.map(), parts[0], members);
            }
            pools.insert(fields[0].clone(), members);
            i += 1;
        }
        pools
    }
}

/// The identifier of the effective user of the process.
///
/// Calls `users::get_effective_uid`, which asks the operating system;
/// nothing is claimed of the number.
#[verifier::external_body]
fn effective_uid() -> u32 {
    users::get_effective_uid()
}

/// The identifier of the effective group of the process.
///
/// Calls `users::get_effective_gid`, which asks the operating system;
/// nothing is claimed of the number.
#[verifier::external_body]
fn effective_gid() -> u32 {
    users::get_effective_gid()
}

/// The name of the user of the process, where the operating system knows one
/// and it is valid text.
///
/// Calls `users::get_current_username`, which looks the user up in the
/// user database; nothing is claimed of the name.
#[verifier::external_body]
fn current_username() -> Option<String> {
    users::get_current_username().and_then(|name| name.into_string().ok())
}

/// Which of the two container engines is installed.
#[derive(Debug, Clone, Copy, PartialEq, Eq, Structural)]
pub enum DockerImpl {
    Docker,
    Podman,
}

impl DockerImpl {
    /// The engine that printed `version` when asked for its version: the
    /// second where the text holds `podman`, else the first.
    pub fn detect(version: &str) -> (r: Self)
        ensures
            r == (if contains_text(version@, "podman"@) {
                DockerImpl::Podman
            } else {
                DockerImpl::Docker
            }),
    {
        if str_contains(version, "podman") {
            DockerImpl::Podman
        } else {
            DockerImpl::Docker
        }
    }
}

/// The command-line tools that the build is driven with.
pub struct Apps<'d> {
    defaults: &'d Defaults,
    /// Path to the manifest tool.
    repo: String,
    /// Path to the container engine.
    docker: String,
    /// Which engine it is.
    docker_impl: DockerImpl,
    /// Path to the client of the machine queue.
    machine_queue: Option<String>,
}

/// The arguments that initialise a checkout with the manifest tool.
pub open spec fn repo_init_arguments(url: Seq<char>, branch: Option<Seq<char>>, manifest: Option<Seq<char>>) -> Seq<
    Seq<char>,
> {
    seq!["init"@, "--manifest-url"@, url] + (match branch {
        Some(b) => seq!["--manifest-branch"@, b],
        None => Seq::empty(),
    }) + (match manifest {
        Some(m) => seq!["--manifest-name"@, m],
        None => Seq::empty(),
    })
}

impl<'d> Apps<'d> {
    /// The defaults that the tools are run with.
    pub closed spec fn defaults_view(&self) -> DefaultsView {
        self.defaults@
    }

    /// Which container engine is installed.
    pub closed spec fn engine(&self) -> DockerImpl {
        self.docker_impl
    }

    /// The path of the client of the machine queue, if it is installed.
    pub closed spec fn queue(&self) -> Option<Seq<char>> {
        opt_text(self.machine_queue)
    }

    /// The paths of the manifest tool and of the container engine.
    pub closed spec fn programs(&self) -> (Seq<char>, Seq<char>) {
        (self.repo@, self.docker@)
    }

    /// The tools as they were found: the path of the manifest tool, the
    /// path of the container engine and what it printed when asked for its
    /// version, and the path of the client of the machine queue. The
    /// container engine is needed.
    pub fn try_new(
        defaults: &'d Defaults,
        repo: String,
        docker: Option<String>,
        docker_version: &str,
        machine_queue: Option<String>,
    ) -> (r: Result<Self, Error>)
        ensures
            match r {
                Ok(apps) => docker matches Some(path) && apps.programs() == (repo@, path@) && apps.defaults_view()
                    == defaults@ && apps.engine() == (if contains_text(docker_version@, "podman"@) {
                    DockerImpl::Podman
                } else {
                    DockerImpl::Docker
                }) && apps.queue() == opt_text(machine_queue),
                Err(e) => docker is None && e is DockerMissing,
            },
    {
        match docker {
            Some(docker) => Ok(
                Apps { defaults, repo, docker, docker_impl: DockerImpl::detect(docker_version), machine_queue },
            ),
            None => Err(Error::DockerMissing),
        }
    }

    /// The path of the manifest tool.
    pub fn repo(&self) -> (r: &str)
        ensures
            r@ == self.programs().0,
    {
        self.repo.as_str()
    }

    /// The image that the container engine runs.
    pub fn docker_image_name(&self) -> (r: &str)
        ensures
            r@ == or_else(self.defaults_view().docker_image, "docker.io/trustworthysystems/camkes-riscv"@),
    {
        self.defaults.docker_image()
    }

    /// The path of the container engine.
    pub fn docker_program(&self) -> (r: &str)
        ensures
            r@ == self.programs().1,
    {
        self.docker.as_str()
    }

    /// The arguments for the manifest tool that initialise a checkout of
    /// the project.
    pub fn repo_init(&self, project: &Repository) -> (r: Vec<String>)
        ensures
            texts(r@) == repo_init_arguments(
                or_else(self.defaults_view().git_server, "https://github.com"@) + "/"@ + repository_text(project@)
                    + ".git"@,
                self.defaults_view().repo_branch,
                self.defaults_view().repo_manifest,
            ),
    {
        let mut r: Vec<String> = Vec::new();
        assert(texts(r@) =~= Seq::<Seq<char>>::empty());
        push_str(&mut r, "init");
        push_str(&mut r, "--manifest-url");
        push_string(&mut r, self.defaults.git_repo_url(project));
        if let Some(branch) = self.defaults.repo_branch() {
            push_str(&mut r, "--manifest-branch");
            push_str(&mut r, branch);
        }
        if let Some(manifest) = self.defaults.repo_manifest() {
            push_str(&mut r, "--manifest-name");
            push_str(&mut r, manifest);
        }
        assert(texts(r@) =~= repo_init_arguments(
            or_else(self.defaults_view().git_server, "https://github.com"@) + "/"@ + repository_text(project@)
                + ".git"@,
            self.defaults_view().repo_branch,
            self.defaults_view().repo_manifest,
        ));
        r
    }

    /// An invocation of the container engine, with the directory that the
    /// tool was started in mounted as the host directory.
    pub fn docker(&'d self, host: String) -> (r: Docker<'d>)
        ensures
            r.apps() == self,
            r.mounts_view() == Map::<Seq<char>, Seq<char>>::empty().insert("/host"@, host@),
            r.work_dir_view() == "/host"@,
    {
        Docker::new(self, host)
    }

    /// Which container engine is installed.
    pub fn docker_impl(&self) -> (r: DockerImpl)
        ensures
            r == self.engine(),
    {
        self.docker_impl
    }

    /// Whether the client of the machine queue is installed.
    pub fn machine_queue_available(&self) -> (r: bool)
        ensures
            r == self.queue() is Some,
    {
        self.machine_queue.is_some()
    }

    /// The path of the client of the machine queue.
    pub fn machine_queue(&self) -> (r: Result<&str, Error>)
        ensures
            match r {
                Ok(path) => self.queue() == Some(path@),
                Err(e) => self.queue() is None && e is NoMachineQueue,
            },
    {
        match &self.machine_queue {
            Some(path) => Ok(path.as_str()),
            None => Err(Error::NoMachineQueue),
        }
    }
}

/// The path of a temporary copy of a tool: in `TMPDIR`, or in `/tmp` where
/// that is not set, the file that is named after the user, or after the
/// user's number where no name is known, `-s4-` and the tool.
pub open spec fn tmp_path(tmpdir: Option<Seq<char>>, user: Option<Seq<char>>, uid: nat, app: Seq<char>) -> Seq<
    char,
> {
    child(
        or_else(tmpdir, "/tmp"@),
        (match user {
            Some(name) => name,
            None => decimal(uid),
        }) + "-s4-"@ + app,
    )
}

/// The path of a temporary copy of a tool, for a user of a given name or
/// number.
pub fn tmp_app_path_for(tmpdir: Option<&str>, user: Option<&str>, uid: u32, app: &str) -> (r: String)
    ensures
        r@ == tmp_path(
            opt_str(tmpdir),
            opt_str(user),
            uid as nat,
            app@,
        ),
{
    let dir = match tmpdir {
        Some(d) => d,
        None => "/tmp",
    };
    let file = match user {
        Some(name) => concat3(name, "-s4-", app),
        None => concat3(decimal_string(uid).as_str(), "-s4-", app),
    };
    child_path(dir, file.as_str())
}

/// The path of a temporary copy of a tool for the user of the process.
pub fn tmp_app_path(tmpdir: Option<&str>, app: &str) -> (r: String)
    ensures
        exists|user: Option<Seq<char>>, uid: nat|
            r@ == #[trigger] tmp_path(
                opt_str(tmpdir),
                user,
                uid,
                app@,
            ),
{
    let user = current_username();
    let uid = effective_uid();
    let r = tmp_app_path_for(
        tmpdir,
        match &user {
            Some(u) => Some(u.as_str()),
            None => None,
        },
        uid,
        app,
    );
    assert(r@ == tmp_path(
        opt_str(tmpdir),
        opt_text(user),
        uid as nat,
        app@,
    ));
    r
}

/// The places where a tool may lie: its name in each directory of the
/// search path, in the order of the path.
pub fn app_candidates(path: &str, app: &str) -> (r: Vec<String>)
    ensures
        r@.len() == split(path@, ':').len(),
        forall|i: int| 0 <= i < r@.len() ==> (#[trigger] r@[i])@ == pushed(split(path@, ':')[i], app@),
{
    let dirs = split_str(path, ':');
    let mut r: Vec<String> = Vec::new();
    let mut i: usize = 0;
    while i < dirs.len()
        invariant
            i <= dirs.len(),
            r@.len() == i,
            forall|j: int| 0 <= j < i ==> (#[trigger] r@[j])@ == pushed(dirs@[j]@, app@),
        decreases dirs.len() - i,
    {
        r.push(push_path(dirs[i].as_str(), app));
        i += 1;
    }
    r
}

/// Finds a tool in the search path: the first of the candidates that
/// exists, given for each whether it does.
pub fn find_app_path(candidates: &Vec<String>, exists: &Vec<bool>) -> (r: Option<String>)
    ensures
        match r {
            Some(path) => exists|i: int|
                0 <= i < candidates@.len() && i < exists@.len() && exists@[i] && path@ == (#[trigger] candidates@[i])@
                    && forall|j: int| 0 <= j < i ==> !#[trigger] exists@[j],
            None => forall|i: int| 0 <= i < candidates@.len() && i < exists@.len() ==> !#[trigger] exists@[i],
        },
{
    let mut i: usize = 0;
    while i < candidates.len() && i < exists.len()
        invariant
            i <= candidates.len(),
            i <= exists.len(),
            forall|j: int| 0 <= j < i ==> !#[trigger] exists@[j],
        decreases candidates.len() - i,
    {
        if exists[i] {
            return Some(candidates[i].clone());
        }
        i += 1;
    }
    None
}

/// An invocation of the container engine that is being put together.
pub struct Docker<'a> {
    /// The tools.
    apps: &'a Apps<'a>,
    /// The mounts: each path inside the container with the host path that
    /// is mounted there.
    mounts: StrMap<String, String>,
    /// The working directory, from the host directory.
    work_dir: String,
}

/// The arguments that mount the host paths: for each mount in the order of
/// the paths inside the container, `--volume` and the host path, the path
/// inside and `z` with colons between them.
pub open spec fn volume_arguments(mounts: Seq<(Seq<char>, Seq<char>)>) -> Seq<Seq<char>>
    decreases mounts.len(),
{
    if mounts.len() == 0 {
        Seq::empty()
    } else {
        volume_arguments(mounts.drop_last()).push("--volume"@).push(
            mounts.last().1 + ":"@ + mounts.last().0 + ":z"@,
        )
    }
}

/// The arguments that set the user inside the container.
pub open spec fn user_arguments(engine: DockerImpl, uid: nat, gid: nat) -> Seq<Seq<char>> {
    match engine {
        DockerImpl::Podman => seq!["--userns=keep-id"@],
        DockerImpl::Docker => seq!["--user"@, decimal(uid) + ":"@ + decimal(gid)],
    }
}

/// The arguments that run a program in the container.
pub open spec fn run_arguments(
    engine: DockerImpl,
    uid: nat,
    gid: nat,
    mounts: Seq<(Seq<char>, Seq<char>)>,
    work_dir: Seq<char>,
    image: Seq<char>,
    program: Seq<char>,
) -> Seq<Seq<char>> {
    seq![
        "run"@,
        "-it"@,
        "--rm"@,
        "--hostname"@,
        "s4"@,
        "--volume"@,
        "/etc/localtime:/etc/localtime:ro"@,
    ] + user_arguments(engine, uid, gid) + volume_arguments(mounts) + seq![
        "--workdir"@,
        pushed("/host"@, work_dir),
        image,
        program,
    ]
}

impl<'a> Docker<'a> {
    const HOST_DIR: &'static str = "/host";

    /// The tools that the invocation is for.
    pub closed spec fn apps(&self) -> &'a Apps<'a> {
        self.apps
    }

    /// The mounts: each path inside the container with the host path.
    pub closed spec fn mounts_view(&self) -> Map<Seq<char>, Seq<char>> {
        self.mounts@
    }

    /// The mounts in the order of the paths inside the container.
    pub closed spec fn mounts_listed(&self) -> Seq<(Seq<char>, Seq<char>)> {
        model_pairs(self.mounts.pairs())
    }

    /// The working directory.
    pub closed spec fn work_dir_view(&self) -> Seq<char> {
        self.work_dir@
    }

    /// A new invocation, with `host` mounted as the host directory and as
    /// the working directory.
    pub fn new(apps: &'a Apps<'a>, host: String) -> (r: Self)
        ensures
            r.apps() == apps,
            r.mounts_view() == Map::<Seq<char>, Seq<char>>::empty().insert("/host"@, host@),
            r.work_dir_view() == "/host"@,
    {
        let mut mounts: StrMap<String, String> = StrMap::new();
        proof {
            crate::ordered::lemma_models_insert(mounts.map(), "/host"@, host);
            assert(mounts@ =~= Map::<Seq<char>, Seq<char>>::empty());
        }
        mounts.insert(String::from_str(Self::HOST_DIR), host);
        Docker { apps, mounts, work_dir: String::from_str(Self::HOST_DIR) }
    }

    /// Mounts the host path `external` at `internal` inside the container.
    pub fn mount(self, internal: &str, external: String) -> (r: Self)
        ensures
            r.apps() == self.apps(),
            r.mounts_view() == self.mounts_view().insert(internal@, external@),
            r.work_dir_view() == self.work_dir_view(),
    {
        let Docker { apps, mounts, work_dir } = self;
        let mut mounts = mounts;
        proof {
            crate::ordered::lemma_models_insert(mounts.map(), internal@, external);
        }
        mounts.insert(String::from_str(internal), external);
        Docker { apps, mounts, work_dir }
    }

    /// Sets the host path that is mounted as the host directory.
    pub fn host_dir(self, external: String) -> (r: Self)
        ensures
            r.apps() == self.apps(),
            r.mounts_view() == self.mounts_view().insert("/host"@, external@),
            r.work_dir_view() == self.work_dir_view(),
    {
        self.mount(Self::HOST_DIR, external)
    }

    /// Sets the working directory for the command.
    pub fn work_dir(self, path: &str) -> (r: Self)
        ensures
            r.apps() == self.apps(),
            r.mounts_view() == self.mounts_view(),
            r.work_dir_view() == path@,
    {
        let Docker { apps, mounts, work_dir: _ } = self;
        Docker { apps, mounts, work_dir: String::from_str(path) }
    }

    /// The arguments that run a program in the image, for the user and
    /// group of the given numbers.
    pub fn run_as(self, program: &str, uid: u32, gid: u32) -> (r: Vec<String>)
        ensures
            lists(self.mounts_listed(), self.mounts_view()),
            texts(r@) == run_arguments(
                self.apps().engine(),
                uid as nat,
                gid as nat,
                self.mounts_listed(),
                self.work_dir_view(),
                or_else(self.apps().defaults_view().docker_image, "docker.io/trustworthysystems/camkes-riscv"@),
                program@,
            ),
    {
        let mut r: Vec<String> = Vec::new();
        assert(texts(r@) =~= Seq::<Seq<char>>::empty());
        push_str(&mut r, "run");
        push_str(&mut r, "-it");
        push_str(&mut r, "--rm");
        push_str(&mut r, "--hostname");
        push_str(&mut r, "s4");
        push_str(&mut r, "--volume");
        push_str(&mut r, "/etc/localtime:/etc/localtime:ro");
        match self.apps.docker_impl {
            DockerImpl::Podman => {
                push_str(&mut r, "--userns=keep-id");
            },
            DockerImpl::Docker => {
                push_str(&mut r, "--user");
                push_string(&mut r, concat3(decimal_string(uid).as_str(), ":", decimal_string(gid).as_str()));
            },
        }
        let ghost head = texts(r@);
        assert(head =~= seq![
            "run"@,
            "-it"@,
            "--rm"@,
            "--hostname"@,
            "s4"@,
            "--volume"@,
            "/etc/localtime:/etc/localtime:ro"@,
        ] + user_arguments(self.apps().engine(), uid as nat, gid as nat));
        let n = self.mounts.len();
        let ghost listed = self.mounts_listed();
        proof {
            crate::ordered::lemma_model_lists(self.mounts.pairs(), self.mounts.map());
        }
        let mut i: usize = 0;
        assert(listed.take(0) =~= Seq::empty());
        assert(texts(r@) =~= head + volume_arguments(listed.take(0)));
        while i < n
            invariant
                i <= n,
                n == self.mounts.pairs().len(),
                listed == self.mounts_listed(),
                texts(r@) == head + volume_arguments(listed.take(i as int)),
            decreases n - i,
        {
            let ghost before = volume_arguments(listed.take(i as int));
            assert(listed.take(i + 1).drop_last() =~= listed.take(i as int));
            let mut volume = self.mounts.value(i).clone();
            volume.append(":");
            volume.append(self.mounts.key(i).as_str());
            volume.append(":z");
            push_str(&mut r, "--volume");
            push_string(&mut r, volume);
            assert(texts(r@) =~= head + before.push("--volume"@).push(volume@));
            i += 1;
        }
        assert(listed.take(n as int) =~= listed);
        let ghost body = texts(r@);
        push_str(&mut r, "--workdir");
        push_string(&mut r, Self::host_path(self.work_dir.as_str()));
        push_str(&mut r, self.apps.defaults.docker_image());
        push_str(&mut r, program);
        assert(texts(r@) =~= body + seq![
            "--workdir"@,
            pushed("/host"@, self.work_dir_view()),
            or_else(self.apps().defaults_view().docker_image, "docker.io/trustworthysystems/camkes-riscv"@),
            program@,
        ]);
        r
    }

    /// The arguments that run a program in the image as the effective user
    /// and group of the process.
    pub fn run(self, program: &str) -> (r: Vec<String>)
        ensures
            lists(self.mounts_listed(), self.mounts_view()),
            exists|uid: nat, gid: nat|
                texts(r@) == #[trigger] run_arguments(
                    self.apps().engine(),
                    uid,
                    gid,
                    self.mounts_listed(),
                    self.work_dir_view(),
                    or_else(self.apps().defaults_view().docker_image, "docker.io/trustworthysystems/camkes-riscv"@),
                    program@,
                ),
    {
        let uid = effective_uid();
        let gid = effective_gid();
        let ghost me = self;
        let r = self.run_as(program, uid, gid);
        assert(texts(r@) == run_arguments(
            me.apps().engine(),
            uid as nat,
            gid as nat,
            me.mounts_listed(),
            me.work_dir_view(),
            or_else(me.apps().defaults_view().docker_image, "docker.io/trustworthysystems/camkes-riscv"@),
            program@,
        ));
        r
    }

    /// The arguments that update the image.
    pub fn update(self) -> (r: Vec<String>)
        ensures
            texts(r@) == seq![
                "pull"@,
                or_else(self.apps().defaults_view().docker_image, "docker.io/trustworthysystems/camkes-riscv"@),
            ],
    {
        let mut r: Vec<String> = Vec::new();
        assert(texts(r@) =~= Seq::<Seq<char>>::empty());
        push_str(&mut r, "pull");
        push_str(&mut r, self.apps.defaults.docker_image());
        assert(texts(r@) =~= seq![
            "pull"@,
            or_else(self.apps().defaults_view().docker_image, "docker.io/trustworthysystems/camkes-riscv"@),
        ]);
        r
    }

    /// A path as it is seen from the host directory of the container.
    pub fn host_path(path: &str) -> (r: String)
        ensures
            r@ == pushed("/host"@, path@),
    {
        push_path(Self::HOST_DIR, path)
    }
}

} // verus!
