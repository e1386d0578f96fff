//! Project workspaces: the workspace at the root of a checkout, the build
//! directories that belong to it, and the marker documents that record both.

use vstd::prelude::*;
use vstd::string::StringExecFns;
use crate::cmake::{Setting, Value, ValueView};
use crate::config::{resolvable, resolved, variation_text, Config, Merge};
use crate::error::Error;
use crate::ordered::{lists, lists_set, texts, Identifier, StrMap, StrSet};
use crate::platform::{family, parsed_architecture, token, Architecture, PlatformId, Sel4Architecture, VariationId};
use crate::config::or_else;
use crate::project::{HostPaths, Project, ProjectId};
use crate::text::opt_str;
use crate::tools::{run_arguments, Apps, Docker};
use vstd::string::StrSliceExecFns;
use crate::config::refusal;
use crate::text::{concat2, concat3, ends_with, slice, str_ends_with, str_eq};
use crate::util::{child, child_path, join_path, joined, relative, relative_path};

verus! {

/// The model of an [`Item`].
pub enum ItemView {
    Boolean(bool),
    Text(Seq<char>),
    List(Seq<Seq<char>>),
}

/// One entry of a marker document: a truth value, a text or a list of texts.
#[derive(Debug, Clone, PartialEq, Eq)]
pub enum Item {
    Boolean(bool),
    Text(String),
    List(Vec<String>),
}

impl View for Item {
    type V = ItemView;

    open spec fn view(&self) -> ItemView {
        match self {
            Item::Boolean(b) => ItemView::Boolean(*b),
            Item::Text(t) => ItemView::Text(t@),
            Item::List(l) => ItemView::List(texts(l@)),
        }
    }
}

/// The model of a [`Workspace`].
pub struct WorkspaceView {
    pub project: Seq<char>,
    pub builds: Set<Seq<char>>,
}

/// Workspace directory for a project.
#[derive(Debug, PartialEq, Eq)]
pub struct Workspace {
    /// Project associated with the workspace.
    project: ProjectId,
    /// Build directories, each as its path from the workspace root.
    builds: StrSet<String>,
}

impl View for Workspace {
    type V = WorkspaceView;

    closed spec fn view(&self) -> WorkspaceView {
        WorkspaceView { project: self.project@, builds: self.builds@ }
    }
}

/// The workspace that a marker document describes: its project and its build
/// directories. Other entries are passed over.
pub open spec fn parsed_workspace(document: Map<Seq<char>, ItemView>) -> Option<WorkspaceView> {
    if document.dom().contains("project"@) && document.dom().contains("builds"@) {
        match (document["project"@], document["builds"@]) {
            (ItemView::Text(project), ItemView::List(builds)) => Some(WorkspaceView { project, builds: builds.to_set() }),
            _ => None,
        }
    } else {
        None
    }
}

/// Copies of the strings of a list.
fn clone_strings(list: &Vec<String>) -> (r: Vec<String>)
    ensures
        texts(r@) == texts(list@),
{
    let mut r: Vec<String> = Vec::new();
    let mut i: usize = 0;
    while i < list.len()
        invariant
            i <= list.len(),
            r@.len() == i,
            forall|j: int| 0 <= j < i ==> (#[trigger] r@[j])@ == list@[j]@,
        decreases list.len() - i,
    {
        r.push(list[i].clone());
        i += 1;
    }
    assert(texts(r@) =~= texts(list@));
    r
}

/// The members of a set of paths, in order.
fn set_members(set: &StrSet<String>) -> (r: Vec<String>)
    ensures
        lists_set(texts(r@), set@),
{
    let n = set.len();
    let mut r: Vec<String> = Vec::new();
    let mut i: usize = 0;
    while i < n
        invariant
            i <= n,
            n == set.items().len(),
            r@.len() == i,
            forall|j: int| 0 <= j < i ==> (#[trigger] r@[j])@ == set.items()[j],
        decreases n - i,
    {
        r.push(set.item(i).clone());
        i += 1;
    }
    assert(texts(r@) =~= set.items());
    r
}

/// The set that holds the strings of a list.
fn set_of(list: &Vec<String>) -> (r: StrSet<String>)
    ensures
        r@ == texts(list@).to_set(),
{
    let mut r: StrSet<String> = StrSet::new();
    let mut i: usize = 0;
    assert(r@ =~= texts(list@).take(0).to_set());
    while i < list.len()
        invariant
            i <= list.len(),
            r@ == texts(list@).take(i as int).to_set(),
        decreases list.len() - i,
    {
        let ghost before = texts(list@).take(i as int);
        r.insert(list[i].clone());
        proof {
            let after = texts(list@).take(i + 1);
            let x = list@[i as int]@;
            assert(after =~= before.push(x));
            assert forall|k: Seq<char>| after.to_set().contains(k) <==> before.to_set().insert(x).contains(k) by {
                if before.contains(k) {
                    let j = before.index_of(k);
                    assert(after[j] == k);
                }
                if k == x {
                    assert(after[before.len() as int] == k);
                }
                if after.contains(k) {
                    let j = after.index_of(k);
                    if j < before.len() {
                        assert(before[j] == k);
                    }
                }
            }
            assert(r@ =~= after.to_set());
        }
        i += 1;
    }
    assert(texts(list@).take(list@.len() as int) =~= texts(list@));
    r
}

impl Clone for Workspace {
    fn clone(&self) -> (r: Self)
        ensures
            r@ == self@,
    {
        let members = set_members(&self.builds);
        let builds = set_of(&members);
        assert(builds@ =~= self.builds@);
        Workspace { project: self.project.clone(), builds }
    }
}

impl Workspace {
    /// Filename used to indicate a workspace directory.
    pub const FILENAME: &'static str = ".s4-workspace.toml";

    /// Hint file used to indicate the location of the project source
    /// directory.
    pub const EASY_SETTINGS: &'static str = "easy-settings.cmake";

    /// The workspace of a project, with no build directory yet.
    pub fn new(project: ProjectId) -> (r: Self)
        ensures
            r@ == (WorkspaceView { project: project@, builds: Set::empty() }),
    {
        Workspace { project, builds: StrSet::new() }
    }

    /// The project that the workspace belongs to.
    pub fn project(&self) -> (r: &ProjectId)
        ensures
            r@ == self@.project,
    {
        &self.project
    }

    /// The build directories that are recorded, in order.
    pub fn builds(&self) -> (r: Vec<String>)
        ensures
            lists_set(texts(r@), self@.builds),
    {
        set_members(&self.builds)
    }

    /// The marker document of the workspace: its project, and its build
    /// directories in order.
    pub fn to_document(&self) -> (document: StrMap<String, Item>)
        ensures
            document@.dom() == set!["project"@, "builds"@],
            document@["project"@] == ItemView::Text(self@.project),
            document@["builds"@] matches ItemView::List(builds) && lists_set(builds, self@.builds),
            parsed_workspace(document@) == Some(self@),
    {
        let mut document: StrMap<String, Item> = StrMap::new();
        let members = set_members(&self.builds);
        let ghost listed = texts(members@);
        let builds = Item::List(members);
        let project = Item::Text(self.project.to_string());
        let ghost empty = document@;
        proof {
            crate::ordered::lemma_models_insert(document.map(), "builds"@, builds);
        }
        document.insert(String::from_str("builds"), builds);
        proof {
            crate::ordered::lemma_models_insert(document.map(), "project"@, project);
        }
        document.insert(String::from_str("project"), project);
        proof {
            reveal_strlit("project");
            reveal_strlit("builds");
            assert("project"@.len() != "builds"@.len());
            assert(document@ == empty.insert("builds"@, ItemView::List(listed)).insert(
                "project"@,
                ItemView::Text(self@.project),
            ));
            assert(document@.dom() =~= set!["project"@, "builds"@]);
            assert(document@["builds"@] == ItemView::List(listed));
            assert(listed.to_set() =~= self@.builds);
        }
        document
    }

    /// The workspace that a marker document describes.
    pub fn from_document(document: &StrMap<String, Item>) -> (r: Option<Self>)
        ensures
            match r {
                Some(workspace) => parsed_workspace(document@) == Some(workspace@),
                None => parsed_workspace(document@) is None,
            },
    {
        match (document.get("project"), document.get("builds")) {
            (Some(Item::Text(project)), Some(Item::List(builds))) => Some(
                Workspace { project: ProjectId::new(project.as_str()), builds: set_of(builds) },
            ),
            _ => None,
        }
    }
}

/// Whether `key` is the key of one of the first `n` entries.
pub open spec fn among<W>(pairs: Seq<(Seq<char>, W)>, n: int, key: Seq<char>) -> bool {
    exists|j: int| 0 <= j < n && (#[trigger] pairs[j]).0 == key
}

/// The keys among the first `n + 1` entries are those among the first `n`
/// and the key of the entry at `n`.
pub proof fn lemma_among_next<W>(pairs: Seq<(Seq<char>, W)>, n: int)
    requires
        0 <= n < pairs.len(),
    ensures
        forall|k: Seq<char>| among(pairs, n + 1, k) <==> among(pairs, n, k) || k == pairs[n].0,
{
    assert forall|k: Seq<char>| among(pairs, n + 1, k) <==> among(pairs, n, k) || k == pairs[n].0 by {
        if among(pairs, n, k) {
            let j = choose|j: int| 0 <= j < n && (#[trigger] pairs[j]).0 == k;
            assert(0 <= j < n + 1 && pairs[j].0 == k);
        }
        if k == pairs[n].0 {
            assert(0 <= n < n + 1 && pairs[n].0 == k);
        }
        if among(pairs, n + 1, k) {
            let j = choose|j: int| 0 <= j < n + 1 && (#[trigger] pairs[j]).0 == k;
            if j < n {
                assert(among(pairs, n, k));
            }
        }
    }
}

/// The model of a [`Build`].
pub struct BuildView {
    pub workspace_root: Seq<char>,
    pub platform: Seq<char>,
    pub variation: Option<Seq<char>>,
    pub architecture: Sel4Architecture,
    pub setting: Map<Seq<char>, ValueView>,
}

/// Build directory configuration.
#[derive(Debug, PartialEq, Eq)]
pub struct Build {
    /// Path from the build directory back to the root of the workspace.
    workspace_root: String,
    /// Configured platform.
    platform: PlatformId,
    /// Configured variation, if any.
    variation: Option<VariationId>,
    /// Configured architecture.
    architecture: Sel4Architecture,
    /// Settings for the build directory.
    setting: Setting,
}

impl View for Build {
    type V = BuildView;

    closed spec fn view(&self) -> BuildView {
        BuildView {
            workspace_root: self.workspace_root@,
            platform: self.platform@,
            variation: match self.variation {
                Some(v) => Some(v@),
                None => None,
            },
            architecture: self.architecture,
            setting: self.setting@,
        }
    }
}

/// Whether a key of the build marker names one of the build's own fields,
/// and so cannot name a flag.
pub open spec fn reserved(key: Seq<char>) -> bool {
    ||| key == "workspace-root"@
    ||| key == "build-platform"@
    ||| key == "build-variation"@
    ||| key == "build-architecture"@
}

/// A value as an entry of a document.
pub open spec fn item_of(value: ValueView) -> ItemView {
    match value {
        ValueView::Boolean(b) => ItemView::Boolean(b),
        ValueView::Text(t) => ItemView::Text(t),
    }
}

/// An entry of a document as a value, where it is a truth value or a text.
pub open spec fn value_of(item: ItemView) -> Option<ValueView> {
    match item {
        ItemView::Boolean(b) => Some(ValueView::Boolean(b)),
        ItemView::Text(t) => Some(ValueView::Text(t)),
        ItemView::List(_) => None,
    }
}

/// The marker document of a build: its own fields, and beside them each
/// entry of its setting that does not bear the key of one of them.
pub open spec fn build_document(build: BuildView) -> Map<Seq<char>, ItemView> {
    Map::new(
        |k: Seq<char>|
            k == "workspace-root"@ || k == "build-platform"@ || k == "build-architecture"@ || (k
                == "build-variation"@ && build.variation is Some) || build.setting.dom().contains(k),
        |k: Seq<char>|
            if k == "workspace-root"@ {
                ItemView::Text(build.workspace_root)
            } else if k == "build-platform"@ {
                ItemView::Text(build.platform)
            } else if k == "build-architecture"@ {
                ItemView::Text(token(build.architecture))
            } else if k == "build-variation"@ && build.variation is Some {
                ItemView::Text(build.variation->0)
            } else {
                item_of(build.setting[k])
            },
    )
}

/// The setting that a build marker holds: every entry that is not one of
/// the build's own fields.
pub open spec fn document_setting(document: Map<Seq<char>, ItemView>) -> Map<Seq<char>, ValueView> {
    Map::new(
        |k: Seq<char>| document.dom().contains(k) && !reserved(k),
        |k: Seq<char>| value_of(document[k])->0,
    )
}

/// Whether a document is the marker of a build: it names the workspace, the
/// platform and an architecture, its variation is a text if it has one, and
/// every other entry is a truth value or a text.
pub open spec fn describes_build(document: Map<Seq<char>, ItemView>) -> bool {
    &&& document.dom().contains("workspace-root"@) && document["workspace-root"@] is Text
    &&& document.dom().contains("build-platform"@) && document["build-platform"@] is Text
    &&& document.dom().contains("build-architecture"@) && document["build-architecture"@] is Text
    &&& parsed_architecture(document["build-architecture"@]->Text_0) is Some
    &&& document.dom().contains("build-variation"@) ==> document["build-variation"@] is Text
    &&& forall|k: Seq<char>| #[trigger] document.dom().contains(k) && !reserved(k) ==> value_of(document[k]) is Some
}

/// The build that a marker document describes.
pub open spec fn parsed_build(document: Map<Seq<char>, ItemView>) -> Option<BuildView> {
    if describes_build(document) {
        Some(
            BuildView {
                workspace_root: document["workspace-root"@]->Text_0,
                platform: document["build-platform"@]->Text_0,
                variation: if document.dom().contains("build-variation"@) {
                    Some(document["build-variation"@]->Text_0)
                } else {
                    None
                },
                architecture: parsed_architecture(document["build-architecture"@]->Text_0)->0,
                setting: document_setting(document),
            },
        )
    } else {
        None
    }
}

/// The four keys of the build's own fields are four different keys.
pub proof fn lemma_reserved_distinct()
    ensures
        "workspace-root"@ != "build-platform"@,
        "workspace-root"@ != "build-variation"@,
        "workspace-root"@ != "build-architecture"@,
        "build-platform"@ != "build-variation"@,
        "build-platform"@ != "build-architecture"@,
        "build-variation"@ != "build-architecture"@,
{
    reveal_strlit("workspace-root");
    reveal_strlit("build-platform");
    reveal_strlit("build-variation");
    reveal_strlit("build-architecture");
    assert("workspace-root"@.len() == 14);
    assert("build-platform"@.len() == 14);
    assert("build-variation"@.len() == 15);
    assert("build-architecture"@.len() == 18);
    assert("workspace-root"@[0] == 'w');
    assert("build-platform"@[0] == 'b');
}

/// Every architecture is read back from its own token.
pub proof fn lemma_token_parses(architecture: Sel4Architecture)
    ensures
        parsed_architecture(token(architecture)) == Some(architecture),
{
    reveal_strlit("riscv32");
    reveal_strlit("riscv64");
    reveal_strlit("aarch32");
    reveal_strlit("arm_hyp");
    reveal_strlit("aarch64");
    reveal_strlit("x86_64");
    reveal_strlit("amd64");
    reveal_strlit("X64");
    reveal_strlit("ia32");
    assert("riscv32"@[6] == '2' && "riscv64"@[6] == '4');
    assert("aarch32"@[6] == '2' && "aarch64"@[6] == '4');
    assert("riscv32"@[0] == 'r' && "aarch32"@[0] == 'a' && "arm_hyp"@[1] == 'r' && "aarch64"@[1] == 'a');
    assert("x86_64"@.len() == 6 && "amd64"@.len() == 5 && "X64"@.len() == 3 && "ia32"@.len() == 4);
    assert("riscv32"@.len() == 7 && "riscv64"@.len() == 7 && "aarch32"@.len() == 7 && "aarch64"@.len() == 7
        && "arm_hyp"@.len() == 7);
}

/// Persistence round trip: a build whose setting uses none of the keys of
/// the build's own fields is read back from its marker document as it was.
pub proof fn lemma_build_round_trip(build: BuildView)
    requires
        forall|k: Seq<char>| build.setting.dom().contains(k) ==> !reserved(k),
    ensures
        parsed_build(build_document(build)) == Some(build),
{
    lemma_reserved_distinct();
    lemma_token_parses(build.architecture);
    let document = build_document(build);
    assert(describes_build(document)) by {
        assert forall|k: Seq<char>| #[trigger] document.dom().contains(k) && !reserved(k) implies value_of(document[k]) is Some by {
            assert(build.setting.dom().contains(k));
        }
    }
    assert(document_setting(document) =~= build.setting) by {
        assert forall|k: Seq<char>| document_setting(document).dom().contains(k) implies document_setting(document)[k]
            == build.setting[k] by {
            assert(build.setting.dom().contains(k));
        }
    }
    let back = parsed_build(document)->0;
    assert(back.variation == build.variation);
}

impl Clone for Build {
    fn clone(&self) -> (r: Self)
        ensures
            r@ == self@,
    {
        Build {
            workspace_root: self.workspace_root.clone(),
            platform: self.platform.clone(),
            variation: match &self.variation {
                Some(v) => Some(v.clone()),
                None => None,
            },
            architecture: self.architecture,
            setting: self.setting.clone(),
        }
    }
}

impl Build {
    /// Filename used to indicate a build directory.
    pub const FILENAME: &'static str = ".s4-build.toml";

    /// The record of a build directory.
    pub fn new(
        workspace_root: String,
        platform: PlatformId,
        variation: Option<VariationId>,
        architecture: Sel4Architecture,
        setting: Setting,
    ) -> (r: Self)
        ensures
            r@ == (BuildView {
                workspace_root: workspace_root@,
                platform: platform@,
                variation: match variation {
                    Some(v) => Some(v@),
                    None => None,
                },
                architecture,
                setting: setting@,
            }),
    {
        Build { workspace_root, platform, variation, architecture, setting }
    }

    /// The path from the build directory back to the root of the workspace.
    pub fn workspace_root(&self) -> (r: &str)
        ensures
            r@ == self@.workspace_root,
    {
        self.workspace_root.as_str()
    }

    /// The platform of the build.
    pub fn platform(&self) -> (r: &PlatformId)
        ensures
            r@ == self@.platform,
    {
        &self.platform
    }

    /// The variation of the build, if it has one.
    pub fn variation(&self) -> (r: Option<&VariationId>)
        ensures
            variation_text(r) == self@.variation,
    {
        match &self.variation {
            Some(v) => Some(v),
            None => None,
        }
    }

    /// The architecture of the build.
    pub fn architecture(&self) -> (r: Sel4Architecture)
        ensures
            r == self@.architecture,
    {
        self.architecture
    }

    /// The setting of the build.
    pub fn setting(&self) -> (r: &Setting)
        ensures
            r@ == self@.setting,
    {
        &self.setting
    }

    /// The marker document of the build.
    pub fn to_document(&self) -> (document: StrMap<String, Item>)
        ensures
            document@ == build_document(self@),
    {
        let mut document: StrMap<String, Item> = StrMap::new();
        let entries = self.setting.flags();
        let ghost listed = self.setting.entries();
        let mut i: usize = 0;
        while i < entries.len()
            invariant
                i <= entries.len(),
                listed == self.setting.entries(),
                lists(listed, self.setting@),
                entries@.len() == listed.len(),
                forall|k: int| 0 <= k < entries@.len() ==> (#[trigger] entries@[k]).0@ == listed[k].0 && entries@[k].1@ == listed[k].1,
                forall|k: Seq<char>|
                    #![trigger document@.dom().contains(k)]
                    #![trigger among(listed, i as int, k)]
                    document@.dom().contains(k) <==> among(listed, i as int, k),
                forall|k: Seq<char>| #[trigger] document@.dom().contains(k) ==> document@[k] == item_of(self.setting@[k]),
            decreases entries.len() - i,
        {
            let item = match &entries[i].1 {
                Value::Boolean(b) => Item::Boolean(*b),
                Value::Text(t) => Item::Text(t.clone()),
            };
            let ghost key = listed[i as int].0;
            let ghost before = document@;
            proof {
                crate::ordered::lemma_models_insert(document.map(), key, item);
                assert(self.setting@.dom().contains(key) && self.setting@[key] == listed[i as int].1);
                assert(item@ == item_of(listed[i as int].1));
                lemma_among_next(listed, i as int);
            }
            document.insert(entries[i].0.to_string(), item);
            assert(document@ == before.insert(key, item@));
            assert forall|k: Seq<char>|
                #![trigger document@.dom().contains(k)]
                #![trigger among(listed, i + 1, k)]
                document@.dom().contains(k) <==> among(listed, i + 1, k) by {
                assert(before.dom().contains(k) <==> among(listed, i as int, k));
                assert(among(listed, i + 1, k) <==> among(listed, i as int, k) || k == key);
            }
            i += 1;
        }
        let ghost flat = document@;
        assert forall|k: Seq<char>| flat.dom().contains(k) <==> self.setting@.dom().contains(k) by {
            assert(flat.dom().contains(k) <==> among(listed, listed.len() as int, k));
            if self.setting@.dom().contains(k) {
                let j = choose|j: int| 0 <= j < listed.len() && (#[trigger] listed[j]).0 == k;
                assert(among(listed, listed.len() as int, k));
            }
            if among(listed, listed.len() as int, k) {
                let j = choose|j: int| 0 <= j < listed.len() && (#[trigger] listed[j]).0 == k;
                assert(self.setting@.dom().contains(listed[j].0));
            }
        }
        let ghost build = self@;
        let root = Item::Text(self.workspace_root.clone());
        let platform = Item::Text(self.platform.to_string());
        let architecture = Item::Text(self.architecture.to_string());
        proof {
            crate::ordered::lemma_models_insert(document.map(), "workspace-root"@, root);
        }
        document.insert(String::from_str("workspace-root"), root);
        proof {
            crate::ordered::lemma_models_insert(document.map(), "build-platform"@, platform);
        }
        document.insert(String::from_str("build-platform"), platform);
        proof {
            crate::ordered::lemma_models_insert(document.map(), "build-architecture"@, architecture);
        }
        document.insert(String::from_str("build-architecture"), architecture);
        let ghost fixed = document@;
        if let Some(variation) = &self.variation {
            let item = Item::Text(variation.to_string());
            proof {
                crate::ordered::lemma_models_insert(document.map(), "build-variation"@, item);
            }
            document.insert(String::from_str("build-variation"), item);
        }
        proof {
            lemma_reserved_distinct();
            assert(fixed == flat.insert("workspace-root"@, ItemView::Text(build.workspace_root)).insert(
                "build-platform"@,
                ItemView::Text(build.platform),
            ).insert("build-architecture"@, ItemView::Text(token(build.architecture))));
            let want = build_document(build);
            assert forall|k: Seq<char>| document@.dom().contains(k) <==> want.dom().contains(k) by {
                assert(flat.dom().contains(k) <==> build.setting.dom().contains(k));
            }
            assert forall|k: Seq<char>| document@.dom().contains(k) implies document@[k] == want[k] by {
                if flat.dom().contains(k) {
                    assert(flat[k] == item_of(build.setting[k]));
                }
            }
            assert(document@ =~= want);
        }
        document
    }

    /// The build that a marker document describes.
    pub fn from_document(document: &StrMap<String, Item>) -> (r: Option<Self>)
        ensures
            match r {
                Some(build) => parsed_build(document@) == Some(build@),
                None => parsed_build(document@) is None,
            },
    {
        let root = match document.get("workspace-root") {
            Some(Item::Text(root)) => root.clone(),
            _ => {
                return None;
            },
        };
        let platform = match document.get("build-platform") {
            Some(Item::Text(platform)) => PlatformId::new(platform.as_str()),
            _ => {
                return None;
            },
        };
        let architecture = match document.get("build-architecture") {
            Some(Item::Text(architecture)) => match Sel4Architecture::parse(architecture.as_str()) {
                Ok(architecture) => architecture,
                Err(_) => {
                    return None;
                },
            },
            _ => {
                return None;
            },
        };
        let variation = match document.get("build-variation") {
            Some(Item::Text(variation)) => Some(VariationId::new(variation.as_str())),
            Some(_) => {
                return None;
            },
            None => None,
        };
        let mut setting = Setting::default();
        let n = document.len();
        let ghost pairs = crate::ordered::model_pairs(document.pairs());
        proof {
            crate::ordered::lemma_model_lists(document.pairs(), document.map());
        }
        let mut i: usize = 0;
        while i < n
            invariant
                i <= n,
                n == document.pairs().len(),
                pairs == crate::ordered::model_pairs(document.pairs()),
                lists(pairs, document@),
                forall|k: Seq<char>|
                    #![trigger setting@.dom().contains(k)]
                    #![trigger among(pairs, i as int, k)]
                    setting@.dom().contains(k) <==> !reserved(k) && among(pairs, i as int, k),
                forall|k: Seq<char>| #[trigger] setting@.dom().contains(k) ==> document@.dom().contains(k) && value_of(document@[k]) == Some(setting@[k]),
                forall|j: int| 0 <= j < i && !reserved((#[trigger] pairs[j]).0) ==> value_of(pairs[j].1) is Some,
            decreases n - i,
        {
            let key = document.key(i);
            let ghost k = pairs[i as int].0;
            assert(k == key@);
            assert(document@.dom().contains(k) && document@[k] == pairs[i as int].1);
            let taken = str_eq(key.as_str(), "workspace-root") || str_eq(key.as_str(), "build-platform")
                || str_eq(key.as_str(), "build-variation") || str_eq(key.as_str(), "build-architecture");
            assert(taken == reserved(k));
            proof {
                lemma_among_next(pairs, i as int);
            }
            let ghost before = setting@;
            if !taken {
                match document.value(i) {
                    Item::Boolean(b) => {
                        setting.set(crate::cmake::FlagId::new(key.as_str()), Value::Boolean(*b));
                    },
                    Item::Text(t) => {
                        setting.set(crate::cmake::FlagId::new(key.as_str()), Value::Text(t.clone()));
                    },
                    Item::List(_) => {
                        return None;
                    },
                }
            }
            assert forall|x: Seq<char>|
                #![trigger setting@.dom().contains(x)]
                #![trigger among(pairs, i + 1, x)]
                setting@.dom().contains(x) <==> !reserved(x) && among(pairs, i + 1, x) by {
                assert(before.dom().contains(x) <==> !reserved(x) && among(pairs, i as int, x));
                assert(among(pairs, i + 1, x) <==> among(pairs, i as int, x) || x == k);
            }
            i += 1;
        }
        proof {
            assert(describes_build(document@)) by {
                assert forall|k: Seq<char>| #[trigger] document@.dom().contains(k) && !reserved(k) implies value_of(
                    document@[k],
                ) is Some by {
                    let j = choose|j: int| 0 <= j < pairs.len() && (#[trigger] pairs[j]).0 == k;
                    assert(value_of(pairs[j].1) is Some);
                }
            }
            assert forall|k: Seq<char>| document@.dom().contains(k) implies among(pairs, n as int, k) by {
                let j = choose|j: int| 0 <= j < pairs.len() && (#[trigger] pairs[j]).0 == k;
                assert(among(pairs, n as int, k));
            }
            assert forall|k: Seq<char>| document_setting(document@).dom().contains(k) <==> setting@.dom().contains(k) by {}
            assert(setting@ =~= document_setting(document@));
        }
        Some(Build { workspace_root: root, platform, variation, architecture, setting })
    }
}

/// Directory within the root of a workspace used to cache artifacts.
pub const CACHE_SUBDIR: &'static str = ".sel4_cache";

/// What stands at the path where a workspace or a build is to be created.
#[derive(Debug, Copy, Clone, PartialEq, Eq, Structural)]
pub enum TargetState {
    /// Nothing exists at the path.
    Missing,
    /// A directory without entries.
    EmptyDirectory,
    /// A directory that holds something.
    OccupiedDirectory,
    /// Something that is no directory.
    NotDirectory,
}

/// Whether a path can take a new workspace or build: nothing is there, or
/// an empty directory.
pub open spec fn vacant(target: TargetState) -> bool {
    target is Missing || target is EmptyDirectory
}

/// The model of a [`WorkspaceContext`].
pub struct WorkspaceContextView {
    pub workspace: WorkspaceView,
    pub workspace_root: Seq<char>,
}

/// Working context: a workspace and the directory it is rooted at.
#[derive(Debug, PartialEq, Eq)]
pub struct WorkspaceContext {
    workspace: Workspace,
    workspace_root: String,
}

impl View for WorkspaceContext {
    type V = WorkspaceContextView;

    closed spec fn view(&self) -> WorkspaceContextView {
        WorkspaceContextView { workspace: self.workspace@, workspace_root: self.workspace_root@ }
    }
}

impl Clone for WorkspaceContext {
    fn clone(&self) -> (r: Self)
        ensures
            r@ == self@,
    {
        WorkspaceContext { workspace: self.workspace.clone(), workspace_root: self.workspace_root.clone() }
    }
}

/// The model of a [`BuildContext`].
pub struct BuildContextView {
    pub workspace: WorkspaceContextView,
    pub build: BuildView,
    pub build_root: Seq<char>,
}

/// A build directory together with the workspace it belongs to.
#[derive(Debug, PartialEq, Eq)]
pub struct BuildContext {
    workspace: WorkspaceContext,
    build: Build,
    build_root: String,
}

impl View for BuildContext {
    type V = BuildContextView;

    closed spec fn view(&self) -> BuildContextView {
        BuildContextView { workspace: self.workspace@, build: self.build@, build_root: self.build_root@ }
    }
}

impl Clone for BuildContext {
    fn clone(&self) -> (r: Self)
        ensures
            r@ == self@,
    {
        BuildContext {
            workspace: self.workspace.clone(),
            build: self.build.clone(),
            build_root: self.build_root.clone(),
        }
    }
}

/// What was found where a build directory is recorded.
#[derive(Debug, Clone, PartialEq, Eq)]
pub enum Probe {
    /// The directory does not exist.
    Absent,
    /// The directory exists, and its marker is missing or cannot be read.
    Unreadable,
    /// The marker of the directory, as a document.
    Marked(StrMap<String, Item>),
}

/// Whether `r` is what loading a build directory at `path` gives, for the
/// marker document that was read there, if one was.
pub open spec fn loads(
    workspace: WorkspaceContextView,
    path: Seq<char>,
    marker: Option<Map<Seq<char>, ItemView>>,
    r: Result<BuildContext, Error>,
) -> bool {
    match r {
        Ok(context) => marker is Some && parsed_build(marker->0) == Some(context@.build) && context@.workspace
            == workspace && context@.build_root == path,
        Err(Error::MissingMarker(at)) => marker is None && at@ == child(path, ".s4-build.toml"@),
        Err(Error::MalformedMarker(at)) => marker is Some && parsed_build(marker->0) is None && at@ == child(
            path,
            ".s4-build.toml"@,
        ),
        Err(_) => false,
    }
}

/// The marker document of a probe, where it found one.
pub open spec fn probed(probe: Probe) -> Option<Map<Seq<char>, ItemView>> {
    match probe {
        Probe::Marked(document) => Some(document@),
        _ => None,
    }
}

impl WorkspaceContext {
    /// Creates the context of a new workspace directory. The path has to be
    /// vacant; the workspace starts without build directories.
    pub fn create(project: ProjectId, path: &str, target: TargetState) -> (r: Result<Self, Error>)
        ensures
            match r {
                Ok(context) => vacant(target) && context@ == (WorkspaceContextView {
                    workspace: WorkspaceView { project: project@, builds: Set::empty() },
                    workspace_root: path@,
                }),
                Err(Error::WorkspaceNotEmpty(at)) => target is OccupiedDirectory && at@ == path@,
                Err(Error::WorkspaceExists(at)) => target is NotDirectory && at@ == path@,
                Err(_) => false,
            },
    {
        match target {
            TargetState::OccupiedDirectory => Err(Error::WorkspaceNotEmpty(String::from_str(path))),
            TargetState::NotDirectory => Err(Error::WorkspaceExists(String::from_str(path))),
            _ => Ok(WorkspaceContext { workspace: Workspace::new(project), workspace_root: String::from_str(path) }),
        }
    }

    /// The context of the workspace at `path`, from the marker document that
    /// was read there, if one was.
    pub fn load(path: &str, marker: Option<&StrMap<String, Item>>) -> (r: Result<Self, Error>)
        ensures
            match r {
                Ok(context) => marker matches Some(document) && parsed_workspace(document@) == Some(
                    context@.workspace,
                ) && context@.workspace_root == path@,
                Err(Error::MissingMarker(at)) => marker is None && at@ == child(path@, ".s4-workspace.toml"@),
                Err(Error::MalformedMarker(at)) => (marker matches Some(document) && parsed_workspace(document@) is None)
                    && at@ == child(path@, ".s4-workspace.toml"@),
                Err(_) => false,
            },
    {
        match marker {
            None => Err(Error::MissingMarker(child_path(path, Workspace::FILENAME))),
            Some(document) => match Workspace::from_document(document) {
                Some(workspace) => Ok(WorkspaceContext { workspace, workspace_root: String::from_str(path) }),
                None => Err(Error::MalformedMarker(child_path(path, Workspace::FILENAME))),
            },
        }
    }

    /// The path of the workspace marker.
    pub fn marker_path(&self) -> (r: String)
        ensures
            r@ == child(self@.workspace_root, ".s4-workspace.toml"@),
    {
        child_path(self.workspace_root.as_str(), Workspace::FILENAME)
    }

    /// The path of the directory that caches artifacts.
    pub fn cache_path(&self) -> (r: String)
        ensures
            r@ == child(self@.workspace_root, ".sel4_cache"@),
    {
        child_path(self.workspace_root.as_str(), CACHE_SUBDIR)
    }

    /// The marker document of the workspace.
    pub fn document(&self) -> (document: StrMap<String, Item>)
        ensures
            parsed_workspace(document@) == Some(self@.workspace),
    {
        self.workspace.to_document()
    }

    /// The paths of the build directories that are recorded, each from where
    /// the workspace root is given from, in the order of the records.
    pub fn build_paths(&self) -> (r: Vec<String>)
        ensures
            exists|recorded: Seq<Seq<char>>| #[trigger]
                lists_set(recorded, self@.workspace.builds) && r@.len() == recorded.len() && forall|i: int|
                    0 <= i < r@.len() ==> (#[trigger] r@[i])@ == child(self@.workspace_root, recorded[i]),
    {
        let recorded = self.workspace.builds();
        let mut r: Vec<String> = Vec::new();
        let mut i: usize = 0;
        while i < recorded.len()
            invariant
                i <= recorded.len(),
                r@.len() == i,
                forall|j: int| 0 <= j < i ==> (#[trigger] r@[j])@ == child(self@.workspace_root, recorded@[j]@),
            decreases recorded.len() - i,
        {
            r.push(child_path(self.workspace_root.as_str(), recorded[i].as_str()));
            i += 1;
        }
        assert(lists_set(texts(recorded@), self@.workspace.builds));
        r
    }

    /// Gets the build contexts of the workspace: one outcome for each path
    /// that `build_paths` gives, from what was found there. A directory that
    /// does not exist is passed over and gives `None`. Where `probes` is
    /// shorter than the paths, the rest counts as absent.
    pub fn builds(&self, paths: &Vec<String>, probes: &Vec<Probe>) -> (r: Vec<Option<Result<BuildContext, Error>>>)
        ensures
            r@.len() == paths@.len(),
            forall|i: int|
                0 <= i < r@.len() ==> (match #[trigger] r@[i] {
                    None => i >= probes@.len() || probes@[i] is Absent,
                    Some(outcome) => i < probes@.len() && !(probes@[i] is Absent) && loads(
                        self@,
                        paths@[i]@,
                        probed(probes@[i]),
                        outcome,
                    ),
                }),
    {
        let mut r: Vec<Option<Result<BuildContext, Error>>> = Vec::new();
        let mut i: usize = 0;
        while i < paths.len()
            invariant
                i <= paths.len(),
                r@.len() == i,
                forall|j: int|
                    0 <= j < i ==> (match #[trigger] r@[j] {
                        None => j >= probes@.len() || probes@[j] is Absent,
                        Some(outcome) => j < probes@.len() && !(probes@[j] is Absent) && loads(
                            self@,
                            paths@[j]@,
                            probed(probes@[j]),
                            outcome,
                        ),
                    }),
            decreases paths.len() - i,
        {
            let outcome = if i < probes.len() {
                match &probes[i] {
                    Probe::Absent => None,
                    Probe::Unreadable => Some(self.load_build(paths[i].as_str(), None)),
                    Probe::Marked(document) => Some(self.load_build(paths[i].as_str(), Some(document))),
                }
            } else {
                None
            };
            r.push(outcome);
            i += 1;
        }
        r
    }

    /// Loads an existing build directory.
    fn load_build(&self, path: &str, marker: Option<&StrMap<String, Item>>) -> (r: Result<BuildContext, Error>)
        ensures
            loads(
                self@,
                path@,
                match marker {
                    Some(document) => Some(document@),
                    None => None,
                },
                r,
            ),
    {
        BuildContext::load(self, path, marker)
    }
}

/// The name of the images of a platform: the family of the architecture, or
/// for the x86 family the architecture itself, a hyphen and the platform.
pub open spec fn image_name(architecture: Sel4Architecture, platform: Seq<char>) -> Seq<char> {
    (if family(architecture) == Architecture::X86 {
        token(architecture)
    } else {
        family(architecture).name()
    }) + "-"@ + platform
}

/// The position of the first name that ends with `tail`, or the number of
/// names if none does.
pub open spec fn first_ending(names: Seq<Seq<char>>, tail: Seq<char>) -> int
    decreases names.len(),
{
    if names.len() == 0 {
        0
    } else if ends_with(names[0], tail) {
        0
    } else {
        1 + first_ending(names.drop_first(), tail)
    }
}

/// The first name that ends with `tail` stands at `k` where none before `k`
/// does.
pub proof fn lemma_first_ending(names: Seq<Seq<char>>, tail: Seq<char>, k: int)
    requires
        0 <= k <= names.len(),
        forall|j: int| 0 <= j < k ==> !ends_with(#[trigger] names[j], tail),
        k < names.len() ==> ends_with(names[k], tail),
    ensures
        first_ending(names, tail) == k,
    decreases k,
{
    if k > 0 {
        let t = names.drop_first();
        assert(!ends_with(names[0], tail));
        assert forall|j: int| 0 <= j < k - 1 implies !ends_with(#[trigger] t[j], tail) by {
            assert(t[j] == names[j + 1]);
        }
        lemma_first_ending(t, tail, k - 1);
    }
}

/// Whether `r` is what creating a build directory gives: on a vacant path,
/// where the setting resolves, the context of the new build, in which the
/// workspace records the way to the build and the build the way back; else
/// the error of the path, or the error of the resolution.
pub open spec fn creates(
    config: crate::config::ConfigView,
    workspace: WorkspaceContextView,
    platform: Seq<char>,
    variation: Option<Seq<char>>,
    architecture: Sel4Architecture,
    added: Map<Seq<char>, ValueView>,
    path: Seq<char>,
    target: TargetState,
    workspace_components: Seq<Seq<char>>,
    build_components: Seq<Seq<char>>,
    r: Result<BuildContext, Error>,
) -> bool {
    match r {
        Ok(context) => vacant(target) && resolvable(config, workspace.workspace.project, platform, variation)
            && context@ == (BuildContextView {
            workspace: WorkspaceContextView {
                workspace: WorkspaceView {
                    project: workspace.workspace.project,
                    builds: workspace.workspace.builds.insert(
                        joined(relative(workspace_components, build_components)),
                    ),
                },
                workspace_root: workspace.workspace_root,
            },
            build: BuildView {
                workspace_root: joined(relative(build_components, workspace_components)),
                platform,
                variation,
                architecture,
                setting: Setting::merged(
                    resolved(config, workspace.workspace.project, platform, variation, architecture),
                    added,
                ),
            },
            build_root: path,
        }),
        Err(Error::BuildNotEmpty(at)) => target is OccupiedDirectory && at@ == path,
        Err(Error::BuildExists(at)) => target is NotDirectory && at@ == path,
        Err(e) => vacant(target) && refusal(config, workspace.workspace.project, platform, variation, e),
    }
}

/// The names of a listing of files, where there is one.
pub open spec fn listing(images: Option<&Vec<String>>) -> Option<Seq<Seq<char>>> {
    match images {
        Some(names) => Some(texts(names@)),
        None => None,
    }
}

/// Whether `r` is what inferring the root server from the names of the
/// images gives: the first name that ends in `-image-` and the platform's
/// image name, without that ending; or the error that the directory of
/// images is missing, or that it holds no such name.
pub open spec fn infers(
    architecture: Sel4Architecture,
    platform: Seq<char>,
    images: Option<Seq<Seq<char>>>,
    r: Result<String, Error>,
) -> bool {
    let tail = "-image-"@ + image_name(architecture, platform);
    match r {
        Ok(name) => images matches Some(names) && ({
            let i = first_ending(names, tail);
            i < names.len() && name@ == names[i].take(names[i].len() - tail.len())
        }),
        Err(Error::ImagesMissing) => images is None,
        Err(Error::NoRootServerImage) => images matches Some(names) && first_ending(names, tail) == names.len(),
        Err(_) => false,
    }
}

impl BuildContext {
    /// Creates the context of a new build directory for a workspace. The
    /// path has to be vacant. The setting of the build is the effective one
    /// of the workspace's project on the platform, with `added_setting`
    /// merged over it. The two directories are given by their components
    /// from the root, and each records its way to the other: the build its
    /// way back to the workspace, the workspace its way to the build.
    pub fn create(
        config: &Config,
        workspace: &WorkspaceContext,
        platform: PlatformId,
        variation: Option<VariationId>,
        architecture: Sel4Architecture,
        added_setting: Setting,
        path: &str,
        target: TargetState,
        workspace_components: &Vec<String>,
        build_components: &Vec<String>,
    ) -> (r: Result<Self, Error>)
        ensures
            creates(
                config@,
                workspace@,
                platform@,
                opt_id(variation),
                architecture,
                added_setting@,
                path@,
                target,
                texts(workspace_components@),
                texts(build_components@),
                r,
            ),
    {
        match target {
            TargetState::OccupiedDirectory => {
                return Err(Error::BuildNotEmpty(String::from_str(path)));
            },
            TargetState::NotDirectory => {
                return Err(Error::BuildExists(String::from_str(path)));
            },
            _ => {},
        }
        let WorkspaceContext { workspace: mut record, workspace_root } = workspace.clone();

        let resolved = config.platform_setting(
            &record.project,
            &platform,
            match &variation {
                Some(v) => Some(v),
                None => None,
            },
            architecture,
        );
        let mut setting = match resolved {
            Ok(setting) => setting,
            Err(e) => {
                return Err(e);
            },
        };
        setting.merge(added_setting);

        let build = Build::new(
            join_path(&relative_path(build_components, workspace_components)),
            platform,
            variation,
            architecture,
            setting,
        );
        record.builds.insert(join_path(&relative_path(workspace_components, build_components)));

        Ok(
            BuildContext {
                workspace: WorkspaceContext { workspace: record, workspace_root },
                build,
                build_root: String::from_str(path),
            },
        )
    }

    /// Loads an existing build directory with a given workspace, from the
    /// marker document that was read there, if one was.
    pub fn load(workspace: &WorkspaceContext, path: &str, marker: Option<&StrMap<String, Item>>) -> (r: Result<
        Self,
        Error,
    >)
        ensures
            loads(
                workspace@,
                path@,
                match marker {
                    Some(document) => Some(document@),
                    None => None,
                },
                r,
            ),
    {
        match marker {
            None => Err(Error::MissingMarker(child_path(path, Build::FILENAME))),
            Some(document) => match Build::from_document(document) {
                Some(build) => Ok(
                    BuildContext { workspace: workspace.clone(), build, build_root: String::from_str(path) },
                ),
                None => Err(Error::MalformedMarker(child_path(path, Build::FILENAME))),
            },
        }
    }

    /// The directory of the build.
    pub fn build_root(&self) -> (r: &str)
        ensures
            r@ == self@.build_root,
    {
        self.build_root.as_str()
    }

    /// The setting of the build.
    pub fn setting(&self) -> (r: &Setting)
        ensures
            r@ == self@.build.setting,
            r.entries() == self.setting_entries(),
    {
        &self.build.setting
    }

    /// The setting of the build, to be changed in place.
    pub fn setting_mut(&mut self) -> (r: &mut Setting)
        ensures
            r@ == old(self)@.build.setting,
            final(self)@ == (BuildContextView {
                build: BuildView { setting: final(r)@, ..old(self)@.build },
                ..old(self)@
            }),
    {
        &mut self.build.setting
    }

    /// The entries of the build's setting in the order of the flags' names.
    pub closed spec fn setting_entries(&self) -> Seq<(Seq<char>, ValueView)> {
        self.build.setting.entries()
    }

    /// Whether running the build on hardware takes the kernel image beside
    /// that of the root server: it does for the x86 family.
    pub fn needs_kernel_image(&self) -> (r: bool)
        ensures
            r == (family(self@.build.architecture) == Architecture::X86),
    {
        match self.build.architecture.architecture() {
            Architecture::X86 => true,
            _ => false,
        }
    }

    /// Merges a setting over that of the build.
    pub fn update_setting(&mut self, setting: Setting)
        ensures
            final(self)@ == (BuildContextView {
                build: BuildView {
                    setting: Setting::merged(old(self)@.build.setting, setting@),
                    ..old(self)@.build
                },
                ..old(self)@
            }),
    {
        self.build.setting.merge(setting);
    }

    /// The path of the build marker and the document to write there.
    pub fn save(&self) -> (r: (String, StrMap<String, Item>))
        ensures
            r.0@ == child(self@.build_root, ".s4-build.toml"@),
            r.1@ == build_document(self@.build),
    {
        (child_path(self.build_root.as_str(), Build::FILENAME), self.build.to_document())
    }

    /// The platform of the build.
    pub fn platform(&self) -> (r: &PlatformId)
        ensures
            r@ == self@.build.platform,
    {
        &self.build.platform
    }

    /// The variation of the build, if it has one.
    pub fn variation(&self) -> (r: Option<&VariationId>)
        ensures
            variation_text(r) == self@.build.variation,
    {
        match &self.build.variation {
            Some(v) => Some(v),
            None => None,
        }
    }

    /// The architecture of the build.
    pub fn architecture(&self) -> (r: Sel4Architecture)
        ensures
            r == self@.build.architecture,
    {
        self.build.architecture
    }

    /// The name that the images of the build's platform carry.
    pub fn plat_image_name(&self) -> (r: String)
        ensures
            r@ == image_name(self@.build.architecture, self@.build.platform),
    {
        let architecture = self.architecture();
        match architecture.architecture() {
            Architecture::X86 => concat3(architecture.as_str(), "-", self.build.platform.as_str()),
            other => concat3(other.as_str(), "-", self.build.platform.as_str()),
        }
    }

    /// The file name of the kernel image.
    pub fn kernel_image_file(&self) -> (r: String)
        ensures
            r@ == "kernel-"@ + image_name(self@.build.architecture, self@.build.platform),
    {
        concat2("kernel-", self.plat_image_name().as_str())
    }

    /// The file name of the image of a root server.
    pub fn image_file(&self, root_server: &str) -> (r: String)
        ensures
            r@ == root_server@ + "-image-"@ + image_name(self@.build.architecture, self@.build.platform),
    {
        concat3(root_server, "-image-", self.plat_image_name().as_str())
    }

    /// The path of the kernel image from the build directory, given whether
    /// the file is there.
    pub fn kernel_image_path(&self, exists: bool) -> (r: Result<String, Error>)
        ensures
            match r {
                Ok(path) => exists && path@ == "images/"@ + ("kernel-"@ + image_name(
                    self@.build.architecture,
                    self@.build.platform,
                )),
                Err(e) => !exists && (e matches Error::ImageMissing(path) && path@ == "images/"@ + ("kernel-"@
                    + image_name(self@.build.architecture, self@.build.platform))),
            },
    {
        Self::in_image_dir(self.kernel_image_file().as_str(), exists)
    }

    /// The path of the image of a root server from the build directory,
    /// given whether the file is there.
    pub fn image_path(&self, root_server: &str, exists: bool) -> (r: Result<String, Error>)
        ensures
            match r {
                Ok(path) => exists && path@ == "images/"@ + (root_server@ + "-image-"@ + image_name(
                    self@.build.architecture,
                    self@.build.platform,
                )),
                Err(e) => !exists && (e matches Error::ImageMissing(path) && path@ == "images/"@ + (root_server@
                    + "-image-"@ + image_name(self@.build.architecture, self@.build.platform))),
            },
    {
        Self::in_image_dir(self.image_file(root_server).as_str(), exists)
    }

    /// The path of a file in the directory of images, or the error that the
    /// file is missing.
    fn in_image_dir(filename: &str, exists: bool) -> (r: Result<String, Error>)
        ensures
            match r {
                Ok(path) => exists && path@ == "images/"@ + filename@,
                Err(e) => !exists && (e matches Error::ImageMissing(path) && path@ == "images/"@ + filename@),
            },
    {
        let path = concat2("images/", filename);
        if exists {
            Ok(path)
        } else {
            Err(Error::ImageMissing(path))
        }
    }

    /// Infers the name of the root server from the file names in the
    /// directory of images, given in the order in which they were listed:
    /// the first that ends in `-image-` and the platform's image name,
    /// without that ending. `None` says that there is no such directory.
    pub fn inferred_root_server(&self, images: Option<&Vec<String>>) -> (r: Result<String, Error>)
        ensures
            infers(self@.build.architecture, self@.build.platform, listing(images), r),
    {
        let names = match images {
            Some(names) => names,
            None => {
                return Err(Error::ImagesMissing);
            },
        };
        let image_tail = concat2("-image-", self.plat_image_name().as_str());
        let tail_len = image_tail.as_str().unicode_len();
        let mut i: usize = 0;
        while i < names.len()
            invariant
                i <= names.len(),
                listing(images) == Some(texts(names@)),
                image_tail@ == "-image-"@ + image_name(self@.build.architecture, self@.build.platform),
                tail_len == image_tail@.len(),
                forall|j: int| 0 <= j < i ==> !ends_with(#[trigger] texts(names@)[j], image_tail@),
            decreases names.len() - i,
        {
            if str_ends_with(names[i].as_str(), image_tail.as_str()) {
                proof {
                    lemma_first_ending(texts(names@), image_tail@, i as int);
                }
                let len = names[i].as_str().unicode_len();
                assert(names@[i as int]@.take(len - tail_len) =~= names@[i as int]@.subrange(0, len - tail_len));
                return Ok(slice(names[i].as_str(), 0, len - tail_len));
            }
            i += 1;
        }
        proof {
            lemma_first_ending(texts(names@), image_tail@, i as int);
        }
        Err(Error::NoRootServerImage)
    }
}

/// The name of an optional identifier.
pub open spec fn opt_id(variation: Option<VariationId>) -> Option<Seq<char>> {
    match variation {
        Some(v) => Some(v@),
        None => None,
    }
}

/// Which context a directory holds.
#[derive(Debug, Copy, Clone, PartialEq, Eq, Structural)]
pub enum Found {
    /// A build marker at the level of this number.
    Build(usize),
    /// A workspace marker, and no build marker, at the level of this number.
    Workspace(usize),
}

/// Finds the context that the working directory lies in. The levels are the
/// working directory and then each directory above it, each with whether it
/// holds a build marker and whether it holds a workspace marker. The closest
/// level with either marker wins, and at one level the build marker.
pub fn find_context(levels: &Vec<(bool, bool)>) -> (r: Option<Found>)
    ensures
        match r {
            None => forall|i: int| 0 <= i < levels@.len() ==> !(#[trigger] levels@[i]).0 && !levels@[i].1,
            Some(Found::Build(n)) => n < levels@.len() && levels@[n as int].0 && forall|i: int|
                0 <= i < n ==> !(#[trigger] levels@[i]).0 && !levels@[i].1,
            Some(Found::Workspace(n)) => n < levels@.len() && !levels@[n as int].0 && levels@[n as int].1
                && forall|i: int| 0 <= i < n ==> !(#[trigger] levels@[i]).0 && !levels@[i].1,
        },
{
    let mut i: usize = 0;
    while i < levels.len()
        invariant
            i <= levels.len(),
            forall|j: int| 0 <= j < i ==> !(#[trigger] levels@[j]).0 && !levels@[j].1,
        decreases levels.len() - i,
    {
        if levels[i].0 {
            return Some(Found::Build(i));
        } else if levels[i].1 {
            return Some(Found::Workspace(i));
        }
        i += 1;
    }
    None
}

/// The way from the root of the workspace to the directory of the hint
/// file, whose place is given by its components from the root.
pub open spec fn source_of(workspace: Seq<Seq<char>>, hint: Seq<Seq<char>>) -> Seq<char> {
    joined(
        relative(
            workspace,
            if hint.len() > 0 {
                hint.drop_last()
            } else {
                hint
            },
        ),
    )
}

/// The mounts of a context: the directory that the tool was started in, the
/// root of the workspace and, in a build, the build directory.
pub open spec fn context_mounts(
    current: Seq<char>,
    workspace: Seq<char>,
    build: Option<Seq<char>>,
) -> Map<Seq<char>, Seq<char>> {
    let base = Map::<Seq<char>, Seq<char>>::empty().insert("/host"@, current).insert("/workspace"@, workspace);
    match build {
        Some(path) => base.insert("/build"@, path),
        None => base,
    }
}

/// Inferred execution context: a workspace, or a build in a workspace.
pub trait Context {
    /// The workspace of the context.
    spec fn workspace_view(&self) -> WorkspaceContextView;

    /// The build directory, if the context is that of a build.
    spec fn build_root_view(&self) -> Option<Seq<char>>;

    /// The path of the workspace directory.
    fn workspace_root(&self) -> (r: &str)
        ensures
            r@ == self.workspace_view().workspace_root,
    ;

    /// The path of the build directory, if in a build directory.
    fn maybe_build_root(&self) -> (r: Option<&str>)
        ensures
            opt_str(r) == self.build_root_view(),
    ;

    /// Obtains only the workspace context.
    fn workspace(&self) -> (r: &WorkspaceContext)
        ensures
            r@ == self.workspace_view(),
    ;

    /// The identifier for the project.
    fn project(&self) -> (r: &ProjectId)
        ensures
            r@ == self.workspace_view().workspace.project,
    ;

    /// The invocation of the container engine for the context, with the
    /// directories of the context mounted. The host directories are given as
    /// their canonical paths; that of the build is used in a build only.
    fn docker<'c>(&self, apps: &'c Apps<'c>, paths: &HostPaths) -> (r: Docker<'c>)
        ensures
            r.apps() == apps,
            r.work_dir_view() == "/host"@,
            r.mounts_view() == context_mounts(
                paths.current@,
                paths.workspace@,
                if self.build_root_view() is Some {
                    Some(paths.build@)
                } else {
                    None
                },
            ),
    {
        let docker = apps.docker(paths.current.clone()).mount(Project::WORKSPACE_DOCKER_DIR, paths.workspace.clone());
        match self.maybe_build_root() {
            Some(_) => docker.mount(Project::BUILD_DOCKER_DIR, paths.build.clone()),
            None => docker,
        }
    }

    /// Infers the path to the source directory, from the root of the
    /// workspace: the way to the directory that holds the hint file, where
    /// the workspace has one. Both places are given by their components from
    /// the root.
    fn inferred_source(&self, workspace_components: &Vec<String>, hint_components: Option<&Vec<String>>) -> (r:
        Result<String, Error>)
        ensures
            match r {
                Ok(path) => hint_components matches Some(hint) && path@ == source_of(
                    texts(workspace_components@),
                    texts(hint@),
                ),
                Err(e) => hint_components is None && e is NoSourceDirectory,
            },
    {
        match hint_components {
            Some(hint) => {
                let mut directory = clone_strings(hint);
                let ghost before = texts(directory@);
                if directory.len() > 0 {
                    let _ = directory.pop();
                    assert(texts(directory@) =~= before.drop_last());
                }
                Ok(join_path(&relative_path(workspace_components, &directory)))
            },
            None => Err(Error::NoSourceDirectory),
        }
    }
}

/// Creates a new build context in the workspace of a context.
pub fn create_build<C: Context>(
    context: &C,
    config: &Config,
    path: &str,
    platform: PlatformId,
    variation: Option<VariationId>,
    architecture: Sel4Architecture,
    setting: Setting,
    target: TargetState,
    workspace_components: &Vec<String>,
    build_components: &Vec<String>,
) -> (r: Result<BuildContext, Error>)
    ensures
        creates(
            config@,
            context.workspace_view(),
            platform@,
            opt_id(variation),
            architecture,
            setting@,
            path@,
            target,
            texts(workspace_components@),
            texts(build_components@),
            r,
        ),
{
    BuildContext::create(
        config,
        context.workspace(),
        platform,
        variation,
        architecture,
        setting,
        path,
        target,
        workspace_components,
        build_components,
    )
}

impl Context for WorkspaceContext {
    open spec fn workspace_view(&self) -> WorkspaceContextView {
        self@
    }

    open spec fn build_root_view(&self) -> Option<Seq<char>> {
        None
    }

    fn workspace_root(&self) -> (r: &str) {
        self.workspace_root.as_str()
    }

    fn maybe_build_root(&self) -> (r: Option<&str>) {
        None
    }

    fn workspace(&self) -> (r: &WorkspaceContext) {
        self
    }

    fn project(&self) -> (r: &ProjectId) {
        &self.workspace.project
    }
}

impl Context for BuildContext {
    open spec fn workspace_view(&self) -> WorkspaceContextView {
        self@.workspace
    }

    open spec fn build_root_view(&self) -> Option<Seq<char>> {
        Some(self@.build_root)
    }

    fn workspace_root(&self) -> (r: &str) {
        self.workspace.workspace_root.as_str()
    }

    fn maybe_build_root(&self) -> (r: Option<&str>) {
        Some(self.build_root.as_str())
    }

    fn project(&self) -> (r: &ProjectId) {
        &self.workspace.workspace.project
    }

    fn workspace(&self) -> (r: &WorkspaceContext) {
        &self.workspace
    }
}

impl BuildContext {
    /// The arguments for the container engine that run the build tool in
    /// the build directory.
    pub fn ninja(&self, apps: &Apps, paths: &HostPaths) -> (r: Vec<String>)
        ensures
            exists|uid: nat, gid: nat, listed: Seq<(Seq<char>, Seq<char>)>| #[trigger]
                lists(listed, context_mounts(paths.current@, paths.workspace@, Some(paths.build@))) && texts(r@)
                    == #[trigger] run_arguments(
                    apps.engine(),
                    uid,
                    gid,
                    listed,
                    "/build"@,
                    or_else(apps.defaults_view().docker_image, "docker.io/trustworthysystems/camkes-riscv"@),
                    "ninja"@,
                ),
    {
        let docker = self.docker(apps, paths).work_dir(Project::BUILD_DOCKER_DIR);
        let ghost run = docker;
        let r = docker.run("ninja");
        proof {
            let (uid, gid) = choose|uid: nat, gid: nat|
                texts(r@) == #[trigger] run_arguments(
                    run.apps().engine(),
                    uid,
                    gid,
                    run.mounts_listed(),
                    run.work_dir_view(),
                    or_else(run.apps().defaults_view().docker_image, "docker.io/trustworthysystems/camkes-riscv"@),
                    "ninja"@,
                );
            assert(lists(run.mounts_listed(), context_mounts(paths.current@, paths.workspace@, Some(paths.build@))));
            assert(texts(r@) == run_arguments(
                apps.engine(),
                uid,
                gid,
                run.mounts_listed(),
                "/build"@,
                or_else(apps.defaults_view().docker_image, "docker.io/trustworthysystems/camkes-riscv"@),
                "ninja"@,
            ));
        }
        r
    }
}

} // verus!
