//! The configuration of the tool: the catalogs of flags, platforms and
//! projects, and the rule by which one layer of configuration overrides
//! another.

use vstd::prelude::*;
use vstd::string::StringExecFns;
use crate::cmake::{admitted, cmake_text, value_text, Flag, FlagId, FlagView, Setting, ValueView};
use crate::error::Error;
use crate::ordered::{lemma_model_lists, lists, model_pairs, texts, Identifier, StrMap, StrSet};
use crate::platform::{token, Platform, PlatformId, PlatformView, Sel4Architecture, VariationId};
use crate::project::{repository_text, Project, ProjectId, ProjectView, Repository};
use crate::text::{opt_text, push_string};
use crate::util::{child, child_path};

verus! {

/// Layered override: `self.merge(other)` combines two values of one shape,
/// and where they conflict `other` wins.
pub trait Merge: View + Sized {
    /// What merging gives, stated on the models of the two operands.
    spec fn merged(a: Self::V, b: Self::V) -> Self::V;

    /// Updates `self` with what `other` holds.
    fn merge(&mut self, other: Self)
        ensures
            final(self)@ == Self::merged(old(self)@, other@),
    ;

    /// Updates `self` with `other` if there is one.
    fn maybe_merge(&mut self, other: Option<Self>)
        ensures
            final(self)@ == (match other {
                Some(o) => Self::merged(old(self)@, o@),
                None => old(self)@,
            }),
    {
        if let Some(other) = other {
            self.merge(other);
        }
    }
}

/// An optional scalar: `other` replaces `self` only where it is present.
impl<T> Merge for Option<T> {
    open spec fn merged(a: Option<T>, b: Option<T>) -> Option<T> {
        if b is Some {
            b
        } else {
            a
        }
    }

    fn merge(&mut self, other: Option<T>) {
        match other {
            Some(value) => {
                *self = Some(value);
                assert(Self::merged(*old(self), other) == other);
            },
            None => {},
        }
    }
}

/// Marks the terminal scalars, which merge by replacement.
pub trait MergeId: View + Sized {
}

/// A terminal scalar: `other` replaces `self`.
impl<T: MergeId> Merge for T {
    open spec fn merged(a: T::V, b: T::V) -> T::V {
        b
    }

    fn merge(&mut self, other: Self) {
        *self = other;
    }
}

impl MergeId for String {
}

/// Items that have a named identifier.
pub trait Named {
    type Id: Identifier;
}

/// An item of a catalog together with the name it is filed under.
pub struct NameRef<'t, T: Named> {
    inner: &'t T,
    name: &'t T::Id,
}

impl<'t, T: Named> NameRef<'t, T> {
    /// The item that is referred to.
    pub closed spec fn item(&self) -> &T {
        self.inner
    }

    /// The name that the item is filed under.
    pub closed spec fn id(&self) -> &T::Id {
        self.name
    }

    /// The reference to an item under a name.
    pub fn new(inner: &'t T, name: &'t T::Id) -> (r: Self)
        ensures
            r.item() == inner,
            r.id() == name,
    {
        NameRef { inner, name }
    }

    /// The name that the item is filed under.
    pub fn name(&self) -> (name: &T::Id)
        ensures
            name == self.id(),
    {
        self.name
    }

    /// The item itself.
    pub fn get(&self) -> (inner: &'t T)
        ensures
            inner == self.item(),
    {
        self.inner
    }
}

impl<'t, T: Named> core::ops::Deref for NameRef<'t, T> {
    type Target = T;

    fn deref(&self) -> (inner: &T)
        ensures
            inner == self.item(),
    {
        self.inner
    }
}

/// What merging two maps gives: the keys of both, and for a key of both the
/// merge of the two values.
pub open spec fn merged_maps<V: Merge>(a: Map<Seq<char>, V::V>, b: Map<Seq<char>, V::V>) -> Map<Seq<char>, V::V> {
    Map::new(
        |k: Seq<char>| a.dom().contains(k) || b.dom().contains(k),
        |k: Seq<char>|
            if !b.dom().contains(k) {
                a[k]
            } else if !a.dom().contains(k) {
                b[k]
            } else {
                V::merged(a[k], b[k])
            },
    )
}

/// Merging the empty map into a map leaves the map as it was.
pub proof fn lemma_merge_maps_empty<V: Merge>(a: Map<Seq<char>, V::V>)
    ensures
        merged_maps::<V>(a, Map::empty()) == a,
{
    assert(merged_maps::<V>(a, Map::empty()) =~= a);
}

/// A mapping: each key of `other` that `self` holds has the two values
/// merged, and every other entry of `other` is added.
impl<K: Identifier, V: Merge> Merge for StrMap<K, V> {
    open spec fn merged(a: Map<Seq<char>, V::V>, b: Map<Seq<char>, V::V>) -> Map<Seq<char>, V::V> {
        merged_maps::<V>(a, b)
    }

    fn merge(&mut self, other: Self) {
        let mut other = other;
        let ghost a = self@;
        let ghost b = other@;
        assert(self@ =~= merged_maps::<V>(a, b.remove_keys(other@.dom())));
        while other.len() > 0
            invariant
                forall|x: Seq<char>| #[trigger] other@.dom().contains(x) ==> b.dom().contains(x) && b[x] == other@[x],
                self@ == merged_maps::<V>(a, b.remove_keys(other@.dom())),
            decreases other.pairs().len(),
        {
            let ghost o = other@;
            let ghost s = self@;
            let ghost theirs = other.map();
            let last = other.len() - 1;
            let (key, value) = other.remove_at(last);
            let ghost k = key.text();
            proof {
                crate::ordered::lemma_models_remove(theirs, k);
                assert(o.dom().contains(k));
                assert(o[k] == value@);
                assert(b.dom().contains(k) && b[k] == value@);
                assert(other@ == o.remove(k));
            }
            let ghost rest = b.remove_keys(o.dom());
            assert(b.remove_keys(other@.dom()) =~= rest.insert(k, b[k]));
            assert(!rest.dom().contains(k));
            let (i, found) = self.position(key.as_str());
            let ghost before = self.map();
            assert(found == before.dom().contains(k));
            assert(s.dom().contains(k) == before.dom().contains(k));
            assert(s.dom().contains(k) == a.dom().contains(k));
            if found {
                let (mine, mut current) = self.remove_at(i);
                assert(mine.text() == k);
                assert(current@ == s[k]);
                assert(s[k] == a[k]);
                current.merge(value);
                self.insert(mine, current);
                assert(self.map() =~= before.insert(k, current));
                proof {
                    crate::ordered::lemma_models_insert(before, k, current);
                }
                assert(self@ == s.insert(k, V::merged(a[k], b[k])));
            } else {
                self.insert(key, value);
                proof {
                    crate::ordered::lemma_models_insert(before, k, value);
                }
                assert(self@ == s.insert(k, b[k]));
            }
            proof {
                let now = merged_maps::<V>(a, rest.insert(k, b[k]));
                assert forall|x: Seq<char>| self@.dom().contains(x) == now.dom().contains(x) by {}
                assert forall|x: Seq<char>| self@.dom().contains(x) implies self@[x] == now[x] by {
                    if x != k {
                        assert(self@[x] == s[x]);
                    }
                }
                assert(self@ =~= now);
            }
        }
        assert(other@.dom() =~= Set::<Seq<char>>::empty());
        assert(b.remove_keys(other@.dom()) =~= b);
        assert(self@ == merged_maps::<V>(a, b));
        assert(Self::merged(a, b) == merged_maps::<V>(a, b));
    }
}

/// A set: the union.
impl<K: Identifier> Merge for StrSet<K> {
    open spec fn merged(a: Set<Seq<char>>, b: Set<Seq<char>>) -> Set<Seq<char>> {
        a.union(b)
    }

    fn merge(&mut self, other: Self) {
        self.union(other);
    }
}

/// Mapping of name identifiers to items, in the order of the names.
#[derive(Debug, Clone, PartialEq, Eq)]
pub struct NamedMap<T: Named> {
    map: StrMap<T::Id, T>,
}

impl<T: Named + View> View for NamedMap<T> {
    type V = Map<Seq<char>, T::V>;

    closed spec fn view(&self) -> Map<Seq<char>, T::V> {
        self.map@
    }
}

impl<T: Named + View> Default for NamedMap<T> {
    fn default() -> (r: Self)
        ensures
            r@ == Map::<Seq<char>, T::V>::empty(),
    {
        NamedMap::new()
    }
}

impl<T: Named + View> NamedMap<T> {
    /// The items in the order of their names, each with its name.
    pub closed spec fn entries(&self) -> Seq<(Seq<char>, T::V)> {
        model_pairs(self.map.pairs())
    }

    /// The map without items.
    pub fn new() -> (r: Self)
        ensures
            r@ == Map::<Seq<char>, T::V>::empty(),
    {
        let r = NamedMap { map: StrMap::new() };
        assert(r@ =~= Map::<Seq<char>, T::V>::empty());
        r
    }

    /// Files an item under a name, in place of the one that was there.
    pub fn insert(&mut self, name: T::Id, item: T)
        ensures
            final(self)@ == old(self)@.insert(name.text(), item@),
    {
        proof {
            crate::ordered::lemma_models_insert(self.map.map(), name.text(), item);
        }
        self.map.insert(name, item);
    }

    /// Gets an object with its name from the map.
    pub fn get(&self, index: &T::Id) -> (r: Option<NameRef<'_, T>>)
        ensures
            match r {
                Some(found) => self@.dom().contains(index.text()) && found.item()@ == self@[index.text()]
                    && found.id().text() == index.text(),
                None => !self@.dom().contains(index.text()),
            },
    {
        let (i, found) = self.map.position(index.as_str());
        if found {
            proof {
                crate::ordered::lemma_map_of_entry(self.map.pairs(), i as int);
            }
            Some(NameRef::new(self.map.value(i), self.map.key(i)))
        } else {
            None
        }
    }

    /// Gets all of the objects with their names from the map, in the order
    /// of the names.
    pub fn all(&self) -> (r: Vec<NameRef<'_, T>>)
        ensures
            lists(self.entries(), self@),
            r@.len() == self.entries().len(),
            forall|i: int|
                0 <= i < r@.len() ==> (#[trigger] r@[i]).id().text() == self.entries()[i].0 && r@[i].item()@
                    == self.entries()[i].1,
    {
        let mut r: Vec<NameRef<'_, T>> = Vec::new();
        let n = self.map.len();
        proof {
            lemma_model_lists(self.map.pairs(), self.map.map());
        }
        let mut i: usize = 0;
        while i < n
            invariant
                i <= n,
                n == self.map.pairs().len(),
                r@.len() == i,
                forall|j: int|
                    0 <= j < i ==> (#[trigger] r@[j]).id().text() == self.entries()[j].0 && r@[j].item()@
                        == self.entries()[j].1,
            decreases n - i,
        {
            r.push(NameRef::new(self.map.value(i), self.map.key(i)));
            i += 1;
        }
        r
    }
}

/// A catalog merges as a mapping of its items.
impl<T: Named + Merge> Merge for NamedMap<T> {
    open spec fn merged(a: Map<Seq<char>, T::V>, b: Map<Seq<char>, T::V>) -> Map<Seq<char>, T::V> {
        merged_maps::<T>(a, b)
    }

    fn merge(&mut self, other: Self) {
        self.map.merge(other.map)
    }
}

/// The model of [`Defaults`].
pub struct DefaultsView {
    pub git_server: Option<Seq<char>>,
    pub docker_image: Option<Seq<char>>,
    pub repo_url: Option<Seq<char>>,
    pub repo_branch: Option<Seq<char>>,
    pub repo_manifest: Option<Seq<char>>,
}

/// Global default configuration.
#[derive(Debug, Clone, PartialEq, Eq)]
pub struct Defaults {
    /// Server to use for manifests.
    git_server: Option<String>,
    /// Container image for build tools.
    docker_image: Option<String>,
    /// URL to download the manifest tool from.
    repo_url: Option<String>,
    /// Branch to check out with the manifest tool.
    repo_branch: Option<String>,
    /// Manifest file to check out.
    repo_manifest: Option<String>,
}

impl View for Defaults {
    type V = DefaultsView;

    closed spec fn view(&self) -> DefaultsView {
        DefaultsView {
            git_server: opt_text(self.git_server),
            docker_image: opt_text(self.docker_image),
            repo_url: opt_text(self.repo_url),
            repo_branch: opt_text(self.repo_branch),
            repo_manifest: opt_text(self.repo_manifest),
        }
    }
}

/// The value if there is one, else the fallback.
pub open spec fn or_else(value: Option<Seq<char>>, fallback: Seq<char>) -> Seq<char> {
    match value {
        Some(v) => v,
        None => fallback,
    }
}

/// Makes a reference option.
fn option_ref(option: &Option<String>) -> (r: Option<&str>)
    ensures
        match r {
            Some(s) => opt_text(*option) == Some(s@),
            None => option is None,
        },
{
    match option {
        Some(s) => Some(s.as_str()),
        None => None,
    }
}

/// Uses a fallback reference if the option is not set.
fn option_fallback<'t>(option: &'t Option<String>, fallback: &'t str) -> (r: &'t str)
    ensures
        r@ == or_else(opt_text(*option), fallback@),
{
    match option_ref(option) {
        Some(s) => s,
        None => fallback,
    }
}

impl Defaults {
    /// Default server for manifests.
    const GIT_SERVER: &'static str = "https://github.com";

    /// Default container image for build tools.
    const DOCKER_IMAGE: &'static str = "docker.io/trustworthysystems/camkes-riscv";

    /// Default URL to download the manifest tool from.
    const REPO_URL: &'static str = "https://storage.googleapis.com/git-repo-downloads/repo";

    /// The defaults with the given entries.
    pub fn new(
        git_server: Option<String>,
        docker_image: Option<String>,
        repo_url: Option<String>,
        repo_branch: Option<String>,
        repo_manifest: Option<String>,
    ) -> (r: Self)
        ensures
            r@ == (DefaultsView {
                git_server: opt_text(git_server),
                docker_image: opt_text(docker_image),
                repo_url: opt_text(repo_url),
                repo_branch: opt_text(repo_branch),
                repo_manifest: opt_text(repo_manifest),
            }),
    {
        Defaults { git_server, docker_image, repo_url, repo_branch, repo_manifest }
    }

    /// The base URL of the server for manifests.
    pub fn git_server(&self) -> (s: &str)
        ensures
            s@ == or_else(self@.git_server, "https://github.com"@),
    {
        option_fallback(&self.git_server, Self::GIT_SERVER)
    }

    /// The URL of a project on the server: the server, a slash, the
    /// repository and `.git`.
    pub fn git_repo_url(&self, repo: &Repository) -> (s: String)
        ensures
            s@ == or_else(self@.git_server, "https://github.com"@) + "/"@ + repository_text(repo@) + ".git"@,
    {
        let mut url = String::from_str(self.git_server());
        url.append("/");
        url.append(repo.to_string().as_str());
        url.append(".git");
        url
    }

    /// Container image to execute for build tools.
    pub fn docker_image(&self) -> (s: &str)
        ensures
            s@ == or_else(self@.docker_image, "docker.io/trustworthysystems/camkes-riscv"@),
    {
        option_fallback(&self.docker_image, Self::DOCKER_IMAGE)
    }

    /// URL to download the manifest tool from.
    pub fn repo_url(&self) -> (s: &str)
        ensures
            s@ == or_else(self@.repo_url, "https://storage.googleapis.com/git-repo-downloads/repo"@),
    {
        option_fallback(&self.repo_url, Self::REPO_URL)
    }

    /// Branch to check out with the manifest tool.
    pub fn repo_branch(&self) -> (r: Option<&str>)
        ensures
            match r {
                Some(s) => self@.repo_branch == Some(s@),
                None => self@.repo_branch is None,
            },
    {
        option_ref(&self.repo_branch)
    }

    /// Manifest to check out with the manifest tool.
    pub fn repo_manifest(&self) -> (r: Option<&str>)
        ensures
            match r {
                Some(s) => self@.repo_manifest == Some(s@),
                None => self@.repo_manifest is None,
            },
    {
        option_ref(&self.repo_manifest)
    }
}

/// What an optional entry is after a layer: the layer's where it has one.
pub open spec fn later(a: Option<Seq<char>>, b: Option<Seq<char>>) -> Option<Seq<char>> {
    if b is Some {
        b
    } else {
        a
    }
}

impl Merge for Defaults {
    open spec fn merged(a: DefaultsView, b: DefaultsView) -> DefaultsView {
        DefaultsView {
            git_server: later(a.git_server, b.git_server),
            docker_image: later(a.docker_image, b.docker_image),
            repo_url: later(a.repo_url, b.repo_url),
            repo_branch: later(a.repo_branch, b.repo_branch),
            repo_manifest: later(a.repo_manifest, b.repo_manifest),
        }
    }

    fn merge(&mut self, other: Self) {
        self.git_server.merge(other.git_server);
        self.docker_image.merge(other.docker_image);
        self.repo_url.merge(other.repo_url);
        self.repo_branch.merge(other.repo_branch);
        self.repo_manifest.merge(other.repo_manifest);
    }
}

/// The model of a [`Config`].
pub struct ConfigView {
    pub defaults: DefaultsView,
    pub flags: Map<Seq<char>, FlagView>,
    pub platforms: Map<Seq<char>, PlatformView>,
    /// The settings of the architectures, each under its token.
    pub architectures: Map<Seq<char>, Map<Seq<char>, ValueView>>,
    pub projects: Map<Seq<char>, ProjectView>,
}

/// Configuration for the whole tool.
#[derive(Debug, Clone, PartialEq, Eq)]
pub struct Config {
    /// Global default configuration.
    defaults: Defaults,
    /// Common flags.
    flags: NamedMap<Flag>,
    /// Known platforms.
    platforms: NamedMap<Platform>,
    /// Architecture-specific flags.
    architectures: StrMap<Sel4Architecture, Setting>,
    /// Known projects.
    projects: NamedMap<Project>,
}

impl View for Config {
    type V = ConfigView;

    closed spec fn view(&self) -> ConfigView {
        ConfigView {
            defaults: self.defaults@,
            flags: self.flags@,
            platforms: self.platforms@,
            architectures: self.architectures@,
            projects: self.projects@,
        }
    }
}

/// The setting that a platform starts from: both platform flags set to its
/// name.
pub open spec fn platform_base(platform: Seq<char>) -> Map<Seq<char>, ValueView> {
    Map::<Seq<char>, ValueView>::empty().insert("kernel-platform"@, ValueView::Text(platform)).insert(
        "platform"@,
        ValueView::Text(platform),
    )
}

/// The effective setting of a project on a platform, its variation if one is
/// chosen, and an architecture: the platform's name, then the platform's
/// setting, the variation's name and setting, the architecture's setting and
/// the project's setting, each layer over the ones before it.
pub open spec fn resolved(
    config: ConfigView,
    project: Seq<char>,
    platform: Seq<char>,
    variation: Option<Seq<char>>,
    arch: Sel4Architecture,
) -> Map<Seq<char>, ValueView> {
    let p = config.platforms[platform];
    let named = Setting::merged(platform_base(platform), p.setting);
    let varied = match variation {
        Some(v) => Setting::merged(named.insert("platform"@, ValueView::Text(v)), p.variations[v]),
        None => named,
    };
    let built = if config.architectures.dom().contains(token(arch)) {
        Setting::merged(varied, config.architectures[token(arch)])
    } else {
        varied
    };
    Setting::merged(built, config.projects[project].setting)
}

/// What stands in the way of resolving a setting, if anything: the platform,
/// then the variation, then the project is looked up.
pub open spec fn resolvable(
    config: ConfigView,
    project: Seq<char>,
    platform: Seq<char>,
    variation: Option<Seq<char>>,
) -> bool {
    &&& config.platforms.dom().contains(platform)
    &&& variation matches Some(v) ==> config.platforms[platform].variations.dom().contains(v)
    &&& config.projects.dom().contains(project)
}

/// Whether `e` is the error that resolving a setting ends in: the first of
/// platform, variation and project that the catalogs do not hold.
pub open spec fn refusal(
    config: ConfigView,
    project: Seq<char>,
    platform: Seq<char>,
    variation: Option<Seq<char>>,
    e: Error,
) -> bool {
    match e {
        Error::NoSuchPlatform(name) => name@ == platform && !config.platforms.dom().contains(platform),
        Error::NoSuchVariation(name, of) => config.platforms.dom().contains(platform) && of@ == platform
            && variation == Some(name@) && !config.platforms[platform].variations.dom().contains(name@),
        Error::NoSuchProject(name) => name@ == project && config.platforms.dom().contains(platform) && (variation matches Some(
            v,
        ) ==> config.platforms[platform].variations.dom().contains(v)) && !config.projects.dom().contains(
            project,
        ),
        _ => false,
    }
}

/// Whether the entry of a setting at position `i` may stand: its flag is not
/// in the catalog, or the catalog admits its value.
pub open spec fn entry_admitted(
    flags: Map<Seq<char>, FlagView>,
    setting: Map<Seq<char>, ValueView>,
    entry: (Seq<char>, ValueView),
) -> bool {
    flags.dom().contains(entry.0) ==> admitted(flags[entry.0], setting, entry.1)
}

/// Whether `e` is the error that checking a setting ends in: that of the
/// first entry, in the order of the flags' names, that may not stand.
pub open spec fn refused(
    flags: Map<Seq<char>, FlagView>,
    entries: Seq<(Seq<char>, ValueView)>,
    setting: Map<Seq<char>, ValueView>,
    e: Error,
) -> bool {
    exists|i: int|
        0 <= i < entries.len() && !entry_admitted(flags, setting, #[trigger] entries[i]) && (forall|j: int|
            0 <= j < i ==> entry_admitted(flags, setting, #[trigger] entries[j])) && (match e {
            Error::Unsatisfied(name) => name@ == entries[i].0 && entries[i].1 == ValueView::Boolean(true),
            Error::InvalidValue(name, text) => name@ == entries[i].0 && entries[i].1 is Text && text@ == value_text(
                entries[i].1,
            ),
            _ => false,
        })
}

/// Whether every flag of the setting that the catalog knows is admitted
/// with its value.
pub open spec fn valid_setting(flags: Map<Seq<char>, FlagView>, setting: Map<Seq<char>, ValueView>) -> bool {
    forall|flag: Seq<char>|
        setting.dom().contains(flag) && #[trigger] flags.dom().contains(flag) ==> admitted(
            flags[flag],
            setting,
            setting[flag],
        )
}

impl Config {
    /// A configuration of the given catalogs.
    pub fn new(
        defaults: Defaults,
        flags: NamedMap<Flag>,
        platforms: NamedMap<Platform>,
        architectures: StrMap<Sel4Architecture, Setting>,
        projects: NamedMap<Project>,
    ) -> (r: Self)
        ensures
            r@ == (ConfigView {
                defaults: defaults@,
                flags: flags@,
                platforms: platforms@,
                architectures: architectures@,
                projects: projects@,
            }),
    {
        Config { defaults, flags, platforms, architectures, projects }
    }

    /// Gets the defaults from the config.
    pub fn defaults(&self) -> (r: &Defaults)
        ensures
            r@ == self@.defaults,
    {
        &self.defaults
    }

    /// The project that is filed under `project`.
    pub fn project(&self, project: &ProjectId) -> (r: Option<NameRef<'_, Project>>)
        ensures
            match r {
                Some(found) => self@.projects.dom().contains(project@) && found.item()@ == self@.projects[project@]
                    && found.id()@ == project@,
                None => !self@.projects.dom().contains(project@),
            },
    {
        self.projects.get(project)
    }

    /// The platform that is filed under `platform`.
    pub fn platform(&self, platform: &PlatformId) -> (r: Option<NameRef<'_, Platform>>)
        ensures
            match r {
                Some(found) => self@.platforms.dom().contains(platform@) && found.item()@
                    == self@.platforms[platform@] && found.id()@ == platform@,
                None => !self@.platforms.dom().contains(platform@),
            },
    {
        self.platforms.get(platform)
    }

    /// The flag that is filed under `flag`.
    pub fn flag(&self, flag: &FlagId) -> (r: Option<NameRef<'_, Flag>>)
        ensures
            match r {
                Some(found) => self@.flags.dom().contains(flag@) && found.item()@ == self@.flags[flag@]
                    && found.id()@ == flag@,
                None => !self@.flags.dom().contains(flag@),
            },
    {
        self.flags.get(flag)
    }

    /// Ensures that a given setting is a valid combination: every flag it
    /// sets that the catalog knows is admitted with its value. The error is
    /// that of the first entry, in the order of the flags' names, that is
    /// not.
    pub fn check_setting(&self, setting: &Setting) -> (r: Result<(), Error>)
        ensures
            r is Ok <==> forall|i: int|
                0 <= i < setting.entries().len() ==> entry_admitted(self@.flags, setting@, #[trigger] setting.entries()[i]),
            r is Ok <==> valid_setting(self@.flags, setting@),
            r matches Err(e) ==> refused(self@.flags, setting.entries(), setting@, e),
    {
        let entries = setting.flags();
        let ghost listed = setting.entries();
        let mut i: usize = 0;
        while i < entries.len()
            invariant
                i <= entries.len(),
                listed == setting.entries(),
                lists(listed, setting@),
                entries@.len() == listed.len(),
                forall|k: int| 0 <= k < entries@.len() ==> (#[trigger] entries@[k]).0@ == listed[k].0 && entries@[k].1@ == listed[k].1,
                forall|j: int| 0 <= j < i ==> entry_admitted(self@.flags, setting@, #[trigger] listed[j]),
            decreases entries.len() - i,
        {
            if let Some(flag) = self.flags.get(&entries[i].0) {
                let checked = Flag::validate(flag, setting, &entries[i].1);
                if checked.is_err() {
                    assert(!entry_admitted(self@.flags, setting@, listed[i as int]));
                    proof {
                        let k = listed[i as int].0;
                        assert(setting@.dom().contains(k) && setting@[k] == listed[i as int].1);
                    }
                    return checked;
                }
            }
            i += 1;
        }
        proof {
            assert forall|flag: Seq<char>| setting@.dom().contains(flag) && #[trigger] self@.flags.dom().contains(flag) implies admitted(
                self@.flags[flag],
                setting@,
                setting@[flag],
            ) by {
                let j = choose|j: int| 0 <= j < listed.len() && (#[trigger] listed[j]).0 == flag;
                assert(entry_admitted(self@.flags, setting@, listed[j]));
            }
        }
        Ok(())
    }

    /// The arguments that pass the setting to the build generator: for each
    /// flag of the setting that the catalog knows and that has a variable,
    /// in the order of the flags' names, `-D`, the variable, `=` and the
    /// value.
    pub fn cmake_args(&self, setting: &Setting) -> (r: Vec<String>)
        ensures
            texts(r@) == cmake_arguments(self@.flags, setting.entries()),
    {
        let entries = setting.flags();
        let ghost listed = setting.entries();
        let mut r: Vec<String> = Vec::new();
        let mut i: usize = 0;
        assert(listed.take(0) =~= Seq::empty());
        assert(texts(r@) =~= Seq::<Seq<char>>::empty());
        while i < entries.len()
            invariant
                i <= entries.len(),
                entries@.len() == listed.len(),
                forall|k: int| 0 <= k < entries@.len() ==> (#[trigger] entries@[k]).0@ == listed[k].0 && entries@[k].1@ == listed[k].1,
                texts(r@) == cmake_arguments(self@.flags, listed.take(i as int)),
            decreases entries.len() - i,
        {
            let ghost before = texts(r@);
            assert(listed.take(i + 1).drop_last() =~= listed.take(i as int));
            if let Some(flag) = self.flags.get(&entries[i].0) {
                if let Some(argument) = flag.get().cmake_flag(&entries[i].1) {
                    r.push(argument);
                    assert(texts(r@) =~= before.push(argument@));
                }
            }
            i += 1;
        }
        assert(listed.take(i as int) =~= listed);
        r
    }

    /// The effective setting of a project on a platform, its variation if
    /// one is chosen, and an architecture.
    pub fn platform_setting(
        &self,
        project: &ProjectId,
        platform: &PlatformId,
        variation: Option<&VariationId>,
        arch: Sel4Architecture,
    ) -> (r: Result<Setting, Error>)
        ensures
            match r {
                Ok(setting) => resolvable(self@, project@, platform@, variation_text(variation)) && setting@ == resolved(
                    self@,
                    project@,
                    platform@,
                    variation_text(variation),
                    arch,
                ),
                Err(e) => refusal(self@, project@, platform@, variation_text(variation), e),
            },
    {
        let mut setting = Setting::default();

        let found = match self.platforms.get(platform) {
            Some(found) => found,
            None => {
                return Err(Error::NoSuchPlatform(platform.to_string()));
            },
        };

        setting.set_kernel_platform(found.name().as_str());
        setting.set_platform(found.name().as_str());
        setting.merge(found.get().setting().clone());

        if let Some(variation) = variation {
            let chosen = match found.get().variation(variation) {
                Some(chosen) => chosen,
                None => {
                    return Err(Error::NoSuchVariation(variation.to_string(), found.name().to_string()));
                },
            };
            setting.set_platform(chosen.name().as_str());
            setting.merge(chosen.get().setting().clone());
        }

        if let Some(layer) = self.architectures.get(arch.as_str()) {
            setting.merge(layer.clone());
        }

        let found = match self.projects.get(project) {
            Some(found) => found,
            None => {
                return Err(Error::NoSuchProject(project.to_string()));
            },
        };

        setting.merge(found.get().setting().clone());

        Ok(setting)
    }
}

/// The name of the variation that is asked for, if one is.
pub open spec fn variation_text(variation: Option<&VariationId>) -> Option<Seq<char>> {
    match variation {
        Some(v) => Some(v@),
        None => None,
    }
}

/// The arguments for the build generator that a list of entries gives.
pub open spec fn cmake_arguments(flags: Map<Seq<char>, FlagView>, entries: Seq<(Seq<char>, ValueView)>) -> Seq<Seq<char>>
    decreases entries.len(),
{
    if entries.len() == 0 {
        Seq::empty()
    } else {
        let rest = cmake_arguments(flags, entries.drop_last());
        let entry = entries.last();
        if flags.dom().contains(entry.0) && flags[entry.0].variable is Some {
            rest.push("-D"@ + flags[entry.0].variable->0 + "="@ + cmake_text(entry.1))
        } else {
            rest
        }
    }
}

impl Merge for Config {
    open spec fn merged(a: ConfigView, b: ConfigView) -> ConfigView {
        ConfigView {
            defaults: Defaults::merged(a.defaults, b.defaults),
            flags: NamedMap::<Flag>::merged(a.flags, b.flags),
            platforms: NamedMap::<Platform>::merged(a.platforms, b.platforms),
            architectures: StrMap::<Sel4Architecture, Setting>::merged(a.architectures, b.architectures),
            projects: NamedMap::<Project>::merged(a.projects, b.projects),
        }
    }

    fn merge(&mut self, other: Self) {
        self.defaults.merge(other.defaults);
        self.flags.merge(other.flags);
        self.platforms.merge(other.platforms);
        self.architectures.merge(other.architectures);
        self.projects.merge(other.projects);
    }
}

/// The configuration that layers give over a base: each merged in turn,
/// so that a later layer overrides an earlier one.
pub open spec fn layered(base: ConfigView, layers: Seq<Config>) -> ConfigView
    decreases layers.len(),
{
    if layers.len() == 0 {
        base
    } else {
        Config::merged(layered(base, layers.drop_last()), layers.last()@)
    }
}

/// The files that may hold a configuration: each of the three file names in
/// each of the directories, in the order of the directories.
pub open spec fn config_files(directories: Seq<Seq<char>>) -> Seq<Seq<char>>
    decreases directories.len(),
{
    if directories.len() == 0 {
        Seq::empty()
    } else {
        config_files(directories.drop_last()).push(child(directories.last(), ".s4"@)).push(
            child(directories.last(), ".s4.toml"@),
        ).push(child(directories.last(), "s4.toml"@))
    }
}

impl Config {
    /// The files that may hold a configuration of the user, given the home
    /// directory and the directory for configurations, as far as there are
    /// such.
    pub fn config_files(directories: &Vec<String>) -> (r: Vec<String>)
        ensures
            texts(r@) == config_files(texts(directories@)),
    {
        let mut r: Vec<String> = Vec::new();
        let mut i: usize = 0;
        assert(texts(directories@).take(0) =~= Seq::empty());
        assert(texts(r@) =~= Seq::<Seq<char>>::empty());
        while i < directories.len()
            invariant
                i <= directories.len(),
                texts(r@) == config_files(texts(directories@).take(i as int)),
            decreases directories.len() - i,
        {
            assert(texts(directories@).take(i + 1).drop_last() =~= texts(directories@).take(i as int));
            let directory = directories[i].as_str();
            push_string(&mut r, child_path(directory, ".s4"));
            push_string(&mut r, child_path(directory, ".s4.toml"));
            push_string(&mut r, child_path(directory, "s4.toml"));
            i += 1;
        }
        assert(texts(directories@).take(directories@.len() as int) =~= texts(directories@));
        r
    }

    /// Loads the configuration: the built-in one, with each configuration
    /// that was found merged over it in the order in which they were found.
    pub fn load(builtin: Config, found: Vec<Config>) -> (r: Config)
        ensures
            r@ == layered(builtin@, found@),
    {
        let mut configuration = builtin;
        let mut rest = found;
        let ghost done: int = 0;
        assert(found@.take(0) =~= Seq::empty());
        while rest.len() > 0
            invariant
                rest@.len() <= found@.len(),
                rest@ == found@.skip(found@.len() - rest@.len()),
                configuration@ == layered(builtin@, found@.take(found@.len() - rest@.len())),
            decreases rest.len(),
        {
            let ghost k = found@.len() - rest@.len();
            let layer = rest.remove(0);
            assert(layer == found@[k]);
            assert(rest@ =~= found@.skip(k + 1));
            assert(found@.take(k + 1).drop_last() =~= found@.take(k));
            configuration.merge(layer);
        }
        assert(found@.take(found@.len() as int) =~= found@);
        configuration
    }
}

/// Resolution precedence: the project's layer is applied last, so a flag
/// that the project sets has the project's value in the effective setting.
pub proof fn lemma_project_wins(
    config: ConfigView,
    project: Seq<char>,
    platform: Seq<char>,
    variation: Option<Seq<char>>,
    arch: Sel4Architecture,
    flag: Seq<char>,
)
    requires
        config.projects[project].setting.dom().contains(flag),
    ensures
        resolved(config, project, platform, variation, arch).dom().contains(flag),
        resolved(config, project, platform, variation, arch)[flag] == config.projects[project].setting[flag],
{
}

/// Resolution precedence: a flag that the project leaves alone has the value
/// of the architecture's layer, where that sets it.
pub proof fn lemma_architecture_over_platform(
    config: ConfigView,
    project: Seq<char>,
    platform: Seq<char>,
    variation: Option<Seq<char>>,
    arch: Sel4Architecture,
    flag: Seq<char>,
)
    requires
        !config.projects[project].setting.dom().contains(flag),
        config.architectures.dom().contains(token(arch)),
        config.architectures[token(arch)].dom().contains(flag),
    ensures
        resolved(config, project, platform, variation, arch)[flag] == config.architectures[token(arch)][flag],
{
}

} // verus!
