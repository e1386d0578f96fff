//! Platform definitions: the hardware targets, their variations, and the
//! architectures they come in.

use vstd::prelude::*;
use vstd::string::StringExecFns;
use crate::cmake::{Setting, ValueView};
use crate::config::{Merge, NameRef, Named, NamedMap};
use crate::error::Error;
use crate::ordered::{Identifier, StrSet};
use crate::text::{concat3, split, split_str, str_eq};

verus! {

/// A unique platform identifier.
#[derive(Debug, PartialEq, Eq, PartialOrd, Ord)]
pub struct PlatformId(String);

impl View for PlatformId {
    type V = Seq<char>;

    closed spec fn view(&self) -> Seq<char> {
        self.0@
    }
}

impl Identifier for PlatformId {
    open spec fn text(&self) -> Seq<char> {
        self@
    }

    fn as_str(&self) -> (s: &str) {
        self.0.as_str()
    }

    fn duplicate(&self) -> (r: Self) {
        PlatformId(self.0.clone())
    }
}

impl Clone for PlatformId {
    fn clone(&self) -> (r: Self)
        ensures
            r@ == self@,
    {
        PlatformId(self.0.clone())
    }
}

impl PlatformId {
    /// The identifier spelled `name`.
    pub fn new(name: &str) -> (id: Self)
        ensures
            id@ == name@,
    {
        PlatformId(String::from_str(name))
    }

    /// The identifier as text.
    pub fn to_string(&self) -> (s: String)
        ensures
            s@ == self@,
    {
        self.0.clone()
    }
}

impl From<String> for PlatformId {
    fn from(s: String) -> (id: Self)
        ensures
            id@ == s@,
    {
        PlatformId(s)
    }
}

impl vstd::std_specs::convert::FromSpecImpl<String> for PlatformId {
    open spec fn obeys_from_spec() -> bool {
        false
    }

    open spec fn from_spec(s: String) -> Self {
        arbitrary()
    }
}

impl From<&str> for PlatformId {
    fn from(s: &str) -> (id: Self)
        ensures
            id@ == s@,
    {
        PlatformId::new(s)
    }
}

impl vstd::std_specs::convert::FromSpecImpl<&str> for PlatformId {
    open spec fn obeys_from_spec() -> bool {
        false
    }

    open spec fn from_spec(s: &str) -> Self {
        arbitrary()
    }
}

/// An identifier of a variation within a platform.
#[derive(Debug, PartialEq, Eq, PartialOrd, Ord)]
pub struct VariationId(String);

impl View for VariationId {
    type V = Seq<char>;

    closed spec fn view(&self) -> Seq<char> {
        self.0@
    }
}

impl Identifier for VariationId {
    open spec fn text(&self) -> Seq<char> {
        self@
    }

    fn as_str(&self) -> (s: &str) {
        self.0.as_str()
    }

    fn duplicate(&self) -> (r: Self) {
        VariationId(self.0.clone())
    }
}

impl Clone for VariationId {
    fn clone(&self) -> (r: Self)
        ensures
            r@ == self@,
    {
        VariationId(self.0.clone())
    }
}

impl VariationId {
    /// The identifier spelled `name`.
    pub fn new(name: &str) -> (id: Self)
        ensures
            id@ == name@,
    {
        VariationId(String::from_str(name))
    }

    /// The identifier as text.
    pub fn to_string(&self) -> (s: String)
        ensures
            s@ == self@,
    {
        self.0.clone()
    }
}

impl From<String> for VariationId {
    fn from(s: String) -> (id: Self)
        ensures
            id@ == s@,
    {
        VariationId(s)
    }
}

impl vstd::std_specs::convert::FromSpecImpl<String> for VariationId {
    open spec fn obeys_from_spec() -> bool {
        false
    }

    open spec fn from_spec(s: String) -> Self {
        arbitrary()
    }
}

impl From<&str> for VariationId {
    fn from(s: &str) -> (id: Self)
        ensures
            id@ == s@,
    {
        VariationId::new(s)
    }
}

impl vstd::std_specs::convert::FromSpecImpl<&str> for VariationId {
    open spec fn obeys_from_spec() -> bool {
        false
    }

    open spec fn from_spec(s: &str) -> Self {
        arbitrary()
    }
}

/// The coarse family of an architecture.
#[derive(Debug, Copy, Clone, PartialEq, Eq, PartialOrd, Ord, Structural)]
pub enum Architecture {
    Arm,
    RiscV,
    X86,
}

impl Architecture {
    /// The name of the family.
    pub open spec fn name(self) -> Seq<char> {
        match self {
            Architecture::Arm => "arm"@,
            Architecture::RiscV => "riscv"@,
            Architecture::X86 => "X86"@,
        }
    }

    /// The name of the family as text.
    pub fn as_str(self) -> (s: &'static str)
        ensures
            s@ == self.name(),
    {
        match self {
            Architecture::Arm => "arm",
            Architecture::RiscV => "riscv",
            Architecture::X86 => "X86",
        }
    }

    /// The name of the family as an owned string.
    pub fn to_string(&self) -> (s: String)
        ensures
            s@ == self.name(),
    {
        String::from_str(self.as_str())
    }
}

/// An architecture that the kernel can be built for.
#[derive(Debug, Copy, Clone, PartialEq, Eq, PartialOrd, Ord, Structural)]
pub enum Sel4Architecture {
    AArch32,
    AArch64,
    RiscV32,
    RiscV64,
    Ia32,
    X86_64,
}

/// The family that each architecture belongs to.
pub open spec fn family(architecture: Sel4Architecture) -> Architecture {
    match architecture {
        Sel4Architecture::AArch32 => Architecture::Arm,
        Sel4Architecture::AArch64 => Architecture::Arm,
        Sel4Architecture::RiscV32 => Architecture::RiscV,
        Sel4Architecture::RiscV64 => Architecture::RiscV,
        Sel4Architecture::Ia32 => Architecture::X86,
        Sel4Architecture::X86_64 => Architecture::X86,
    }
}

/// The token that names each architecture.
pub open spec fn token(architecture: Sel4Architecture) -> Seq<char> {
    match architecture {
        Sel4Architecture::AArch32 => "aarch32"@,
        Sel4Architecture::AArch64 => "aarch64"@,
        Sel4Architecture::RiscV32 => "riscv32"@,
        Sel4Architecture::RiscV64 => "riscv64"@,
        Sel4Architecture::Ia32 => "ia32"@,
        Sel4Architecture::X86_64 => "x86_64"@,
    }
}

/// The architecture that a token names, aliases included.
pub open spec fn parsed_architecture(s: Seq<char>) -> Option<Sel4Architecture> {
    if s == "riscv32"@ {
        Some(Sel4Architecture::RiscV32)
    } else if s == "riscv64"@ {
        Some(Sel4Architecture::RiscV64)
    } else if s == "aarch32"@ || s == "arm_hyp"@ {
        Some(Sel4Architecture::AArch32)
    } else if s == "aarch64"@ {
        Some(Sel4Architecture::AArch64)
    } else if s == "x86_64"@ || s == "amd64"@ || s == "X64"@ {
        Some(Sel4Architecture::X86_64)
    } else if s == "ia32"@ {
        Some(Sel4Architecture::Ia32)
    } else {
        None
    }
}

impl Identifier for Sel4Architecture {
    open spec fn text(&self) -> Seq<char> {
        token(*self)
    }

    fn as_str(&self) -> (s: &str) {
        match self {
            Sel4Architecture::AArch32 => "aarch32",
            Sel4Architecture::AArch64 => "aarch64",
            Sel4Architecture::RiscV32 => "riscv32",
            Sel4Architecture::RiscV64 => "riscv64",
            Sel4Architecture::Ia32 => "ia32",
            Sel4Architecture::X86_64 => "x86_64",
        }
    }

    fn duplicate(&self) -> (r: Self) {
        *self
    }
}

impl Sel4Architecture {
    /// The family of the architecture.
    pub fn architecture(self) -> (r: Architecture)
        ensures
            r == family(self),
    {
        match self {
            Sel4Architecture::AArch32 => Architecture::Arm,
            Sel4Architecture::AArch64 => Architecture::Arm,
            Sel4Architecture::RiscV32 => Architecture::RiscV,
            Sel4Architecture::RiscV64 => Architecture::RiscV,
            Sel4Architecture::Ia32 => Architecture::X86,
            Sel4Architecture::X86_64 => Architecture::X86,
        }
    }

    /// The architecture that `string` names.
    pub fn parse(string: &str) -> (r: Result<Self, Error>)
        ensures
            match r {
                Ok(a) => parsed_architecture(string@) == Some(a),
                Err(e) => parsed_architecture(string@) is None && (e matches Error::InvalidArchitecture(s)
                    && s@ == string@),
            },
    {
        if str_eq(string, "riscv32") {
            Ok(Sel4Architecture::RiscV32)
        } else if str_eq(string, "riscv64") {
            Ok(Sel4Architecture::RiscV64)
        } else if str_eq(string, "aarch32") || str_eq(string, "arm_hyp") {
            Ok(Sel4Architecture::AArch32)
        } else if str_eq(string, "aarch64") {
            Ok(Sel4Architecture::AArch64)
        } else if str_eq(string, "x86_64") || str_eq(string, "amd64") || str_eq(string, "X64") {
            Ok(Sel4Architecture::X86_64)
        } else if str_eq(string, "ia32") {
            Ok(Sel4Architecture::Ia32)
        } else {
            Err(Error::InvalidArchitecture(String::from_str(string)))
        }
    }

    /// The token of the architecture as an owned string.
    pub fn to_string(&self) -> (s: String)
        ensures
            s@ == token(*self),
    {
        String::from_str(self.as_str())
    }
}

impl core::str::FromStr for Sel4Architecture {
    type Err = Error;

    fn from_str(string: &str) -> (r: Result<Self, Error>)
        ensures
            match r {
                Ok(a) => parsed_architecture(string@) == Some(a),
                Err(e) => parsed_architecture(string@) is None && (e matches Error::InvalidArchitecture(s)
                    && s@ == string@),
            },
    {
        Sel4Architecture::parse(string)
    }
}

/// A variation of a particular platform.
///
/// Where a platform may refer to multiple compatible architectures, the
/// variation can specify a particular architecture with a certain set of
/// features.
#[derive(Debug, Clone, PartialEq, Eq)]
pub struct Variation {
    setting: Setting,
}

impl View for Variation {
    type V = Map<Seq<char>, ValueView>;

    closed spec fn view(&self) -> Map<Seq<char>, ValueView> {
        self.setting@
    }
}

impl Variation {
    /// The variation that layers `setting` over its platform.
    pub fn new(setting: Setting) -> (r: Self)
        ensures
            r@ == setting@,
    {
        Variation { setting }
    }

    /// The setting that the variation layers over its platform.
    pub fn setting(&self) -> (r: &Setting)
        ensures
            r@ == self@,
    {
        &self.setting
    }
}

impl Merge for Variation {
    open spec fn merged(a: Map<Seq<char>, ValueView>, b: Map<Seq<char>, ValueView>) -> Map<Seq<char>, ValueView> {
        Setting::merged(a, b)
    }

    fn merge(&mut self, other: Self) {
        self.setting.merge(other.setting);
    }
}

impl Named for Variation {
    type Id = VariationId;
}

/// The model of a [`Platform`].
pub struct PlatformView {
    /// The tokens of the supported architectures.
    pub architectures: Set<Seq<char>>,
    pub variations: Map<Seq<char>, Map<Seq<char>, ValueView>>,
    pub setting: Map<Seq<char>, ValueView>,
}

/// A single platform known to the build system.
#[derive(Debug, Clone, PartialEq, Eq)]
pub struct Platform {
    /// Supported architectures.
    architectures: StrSet<Sel4Architecture>,
    /// Variations.
    variations: NamedMap<Variation>,
    setting: Setting,
}

impl View for Platform {
    type V = PlatformView;

    closed spec fn view(&self) -> PlatformView {
        PlatformView {
            architectures: self.architectures@,
            variations: self.variations@,
            setting: self.setting@,
        }
    }
}

impl Platform {
    /// A platform with its architectures, variations and own setting.
    pub fn new(architectures: StrSet<Sel4Architecture>, variations: NamedMap<Variation>, setting: Setting) -> (r: Self)
        ensures
            r@.architectures == architectures@,
            r@.variations == variations@,
            r@.setting == setting@,
    {
        Platform { architectures, variations, setting }
    }

    /// The platform's own setting.
    pub fn setting(&self) -> (r: &Setting)
        ensures
            r@ == self@.setting,
    {
        &self.setting
    }

    /// The variation of the platform that is filed under `id`.
    pub fn variation(&self, id: &VariationId) -> (r: Option<NameRef<'_, Variation>>)
        ensures
            match r {
                Some(found) => self@.variations.dom().contains(id@) && found.item()@ == self@.variations[id@]
                    && found.id()@ == id@,
                None => !self@.variations.dom().contains(id@),
            },
    {
        self.variations.get(id)
    }

    /// Checks that the platform supports the architecture.
    pub fn check_architecture(self_ref: &NameRef<Platform>, architecture: Sel4Architecture) -> (r: Result<(), Error>)
        ensures
            r is Ok <==> self_ref.item()@.architectures.contains(token(architecture)),
            r matches Err(e) ==> (e matches Error::UnsupportedArchitecture(a, p) && a == architecture && p@
                == self_ref.id()@),
    {
        if !self_ref.get().architectures.contains(architecture.as_str()) {
            Err(Error::UnsupportedArchitecture(architecture, self_ref.name().to_string()))
        } else {
            Ok(())
        }
    }
}

impl Merge for Platform {
    open spec fn merged(a: PlatformView, b: PlatformView) -> PlatformView {
        PlatformView {
            architectures: a.architectures.union(b.architectures),
            variations: NamedMap::<Variation>::merged(a.variations, b.variations),
            setting: Setting::merged(a.setting, b.setting),
        }
    }

    fn merge(&mut self, other: Self) {
        self.architectures.merge(other.architectures);
        self.variations.merge(other.variations);
        self.setting.merge(other.setting);
    }
}

impl Named for Platform {
    type Id = PlatformId;
}

/// The model of a [`PlatformChoice`].
pub enum PlatformChoiceView {
    ChoosePlatform(Seq<char>),
    ChooseVariation(Seq<char>, Seq<char>),
}

/// The choice of a specific platform.
#[derive(Debug, Clone, PartialEq, Eq, PartialOrd, Ord)]
pub enum PlatformChoice {
    /// Choose any variation of a given platform.
    ChoosePlatform(PlatformId),
    /// Choose a specific variation of a given platform.
    ChooseVariation(PlatformId, VariationId),
}

impl View for PlatformChoice {
    type V = PlatformChoiceView;

    open spec fn view(&self) -> PlatformChoiceView {
        match self {
            PlatformChoice::ChoosePlatform(p) => PlatformChoiceView::ChoosePlatform(p@),
            PlatformChoice::ChooseVariation(p, v) => PlatformChoiceView::ChooseVariation(p@, v@),
        }
    }
}

/// How a choice is written: the platform, or the platform, a colon and the
/// variation.
pub open spec fn choice_text(choice: PlatformChoiceView) -> Seq<char> {
    match choice {
        PlatformChoiceView::ChoosePlatform(p) => p,
        PlatformChoiceView::ChooseVariation(p, v) => p + seq![':'] + v,
    }
}

/// The choice that a string spells: a platform, or a platform and a
/// variation with one colon between them.
pub open spec fn parsed_choice(s: Seq<char>) -> Option<PlatformChoiceView> {
    let parts = split(s, ':');
    if parts.len() == 1 {
        Some(PlatformChoiceView::ChoosePlatform(parts[0]))
    } else if parts.len() == 2 {
        Some(PlatformChoiceView::ChooseVariation(parts[0], parts[1]))
    } else {
        None
    }
}

/// A choice is read back from the way it is written, where neither the
/// platform nor the variation holds a colon.
pub proof fn lemma_choice_round_trip(choice: PlatformChoiceView)
    requires
        match choice {
            PlatformChoiceView::ChoosePlatform(p) => !p.contains(':'),
            PlatformChoiceView::ChooseVariation(p, v) => !p.contains(':') && !v.contains(':'),
        },
    ensures
        parsed_choice(choice_text(choice)) == Some(choice),
{
    match choice {
        PlatformChoiceView::ChoosePlatform(p) => {
            crate::text::lemma_split_whole(p, ':');
        },
        PlatformChoiceView::ChooseVariation(p, v) => {
            crate::text::lemma_split_pair(p, v, ':');
        },
    }
}

impl PlatformChoice {
    /// The choice that `string` spells.
    pub fn parse(string: &str) -> (r: Result<Self, Error>)
        ensures
            match r {
                Ok(choice) => parsed_choice(string@) == Some(choice@),
                Err(e) => parsed_choice(string@) is None && (e matches Error::MalformedPlatformChoice(s)
                    && s@ == string@),
            },
    {
        let parts = split_str(string, ':');
        if parts.len() == 1 {
            Ok(PlatformChoice::ChoosePlatform(PlatformId(parts[0].clone())))
        } else if parts.len() == 2 {
            Ok(PlatformChoice::ChooseVariation(PlatformId(parts[0].clone()), VariationId(parts[1].clone())))
        } else {
            Err(Error::MalformedPlatformChoice(String::from_str(string)))
        }
    }

    /// The choice as it is written.
    pub fn to_string(&self) -> (s: String)
        ensures
            s@ == choice_text(self@),
    {
        match self {
            PlatformChoice::ChoosePlatform(platform) => platform.to_string(),
            PlatformChoice::ChooseVariation(platform, variation) => {
                proof {
                    reveal_strlit(":");
                    assert(":"@ =~= seq![':']);
                }
                concat3(platform.as_str(), ":", variation.as_str())
            },
        }
    }
}

impl core::str::FromStr for PlatformChoice {
    type Err = Error;

    fn from_str(string: &str) -> (r: Result<Self, Error>)
        ensures
            match r {
                Ok(choice) => parsed_choice(string@) == Some(choice@),
                Err(e) => parsed_choice(string@) is None && (e matches Error::MalformedPlatformChoice(s)
                    && s@ == string@),
            },
    {
        PlatformChoice::parse(string)
    }
}

} // verus!
