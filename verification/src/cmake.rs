//! Build options: their values, the settings that assign them, and the
//! catalog entries that say when an option may be switched on.

use vstd::prelude::*;
use vstd::string::StringExecFns;
use crate::config::{Merge, MergeId, NameRef, Named};
use crate::error::Error;
use crate::ordered::{lemma_model_lists, lists, model_pairs, Identifier, StrMap};
use crate::text::{opt_text, str_eq};

verus! {

/// Identifier of an option of the build.
#[derive(Debug, PartialEq, Eq, PartialOrd, Ord)]
pub struct FlagId(String);

impl View for FlagId {
    type V = Seq<char>;

    closed spec fn view(&self) -> Seq<char> {
        self.0@
    }
}

impl Identifier for FlagId {
    open spec fn text(&self) -> Seq<char> {
        self@
    }

    fn as_str(&self) -> (s: &str) {
        self.0.as_str()
    }

    fn duplicate(&self) -> (r: Self) {
        FlagId(self.0.clone())
    }
}

impl Clone for FlagId {
    fn clone(&self) -> (r: Self)
        ensures
            r@ == self@,
    {
        FlagId(self.0.clone())
    }
}

impl FlagId {
    /// The identifier spelled `name`.
    pub fn new(name: &str) -> (id: Self)
        ensures
            id@ == name@,
    {
        FlagId(String::from_str(name))
    }

    /// The identifier as text.
    pub fn to_string(&self) -> (s: String)
        ensures
            s@ == self@,
    {
        self.0.clone()
    }
}

impl From<String> for FlagId {
    fn from(s: String) -> (id: Self)
        ensures
            id@ == s@,
    {
        FlagId(s)
    }
}

impl vstd::std_specs::convert::FromSpecImpl<String> for FlagId {
    open spec fn obeys_from_spec() -> bool {
        false
    }

    open spec fn from_spec(s: String) -> Self {
        arbitrary()
    }
}

impl From<&str> for FlagId {
    fn from(s: &str) -> (id: Self)
        ensures
            id@ == s@,
    {
        FlagId::new(s)
    }
}

impl vstd::std_specs::convert::FromSpecImpl<&str> for FlagId {
    open spec fn obeys_from_spec() -> bool {
        false
    }

    open spec fn from_spec(s: &str) -> Self {
        arbitrary()
    }
}

/// The model of a [`Value`]: a truth value or a text.
pub enum ValueView {
    Boolean(bool),
    Text(Seq<char>),
}

/// Value assigned to an option.
#[derive(Debug, PartialEq, Eq, PartialOrd, Ord)]
pub enum Value {
    Boolean(bool),
    Text(String),
}

impl View for Value {
    type V = ValueView;

    open spec fn view(&self) -> ValueView {
        match self {
            Value::Boolean(b) => ValueView::Boolean(*b),
            Value::Text(t) => ValueView::Text(t@),
        }
    }
}

impl Clone for Value {
    fn clone(&self) -> (r: Self)
        ensures
            r@ == self@,
    {
        match self {
            Value::Boolean(b) => Value::Boolean(*b),
            Value::Text(t) => Value::Text(t.clone()),
        }
    }
}

/// How a value is spelled on the command line of the build generator.
pub open spec fn cmake_text(value: ValueView) -> Seq<char> {
    match value {
        ValueView::Boolean(true) => "ON"@,
        ValueView::Boolean(false) => "OFF"@,
        ValueView::Text(t) => t,
    }
}

/// How a value is spelled in messages.
pub open spec fn value_text(value: ValueView) -> Seq<char> {
    match value {
        ValueView::Boolean(true) => "true"@,
        ValueView::Boolean(false) => "false"@,
        ValueView::Text(t) => t,
    }
}

impl Value {
    /// Whether the value is a truth value.
    pub fn is_bool(&self) -> (r: bool)
        ensures
            r == (self@ is Boolean),
    {
        match self {
            Value::Boolean(_) => true,
            _ => false,
        }
    }

    /// The value as the build generator wants it: `ON`, `OFF` or the text.
    pub fn cmake_str(&self) -> (s: &str)
        ensures
            s@ == cmake_text(self@),
    {
        match self {
            Value::Boolean(true) => "ON",
            Value::Boolean(false) => "OFF",
            Value::Text(text) => text.as_str(),
        }
    }

    /// The value as it is shown in messages: `true`, `false` or the text.
    pub fn to_string(&self) -> (s: String)
        ensures
            s@ == value_text(self@),
    {
        match self {
            Value::Boolean(true) => String::from_str("true"),
            Value::Boolean(false) => String::from_str("false"),
            Value::Text(text) => text.clone(),
        }
    }

    /// Whether two values are the same.
    pub fn same(&self, other: &Value) -> (r: bool)
        ensures
            r == (self@ == other@),
    {
        match (self, other) {
            (Value::Boolean(a), Value::Boolean(b)) => *a == *b,
            (Value::Text(a), Value::Text(b)) => str_eq(a.as_str(), b.as_str()),
            _ => false,
        }
    }
}

impl MergeId for Value {
}

/// The model of a [`Requirement`].
pub enum RequirementView {
    Single(ValueView),
    Any(Set<ValueView>),
}

impl RequirementView {
    /// Whether a flag with this value meets the requirement.
    pub open spec fn admits(self, value: ValueView) -> bool {
        match self {
            RequirementView::Single(required) => value == required,
            RequirementView::Any(allowed) => allowed.contains(value),
        }
    }
}

/// The models of a sequence of values, as a set.
pub open spec fn value_set(values: Seq<Value>) -> Set<ValueView> {
    Set::new(|v: ValueView| exists|i: int| 0 <= i < values.len() && (#[trigger] values[i])@ == v)
}

/// A required setting for a particular flag.
#[derive(Debug, Clone, PartialEq, Eq)]
pub enum Requirement {
    /// Requires that a flag be set to a specific value.
    Single(Value),
    /// Requires that a flag be set to any of a set of values.
    Any(Vec<Value>),
}

impl View for Requirement {
    type V = RequirementView;

    open spec fn view(&self) -> RequirementView {
        match self {
            Requirement::Single(value) => RequirementView::Single(value@),
            Requirement::Any(values) => RequirementView::Any(value_set(values@)),
        }
    }
}

impl Requirement {
    /// The requirement that a flag be switched on or off.
    pub fn from_bool(v: bool) -> (r: Self)
        ensures
            r@ == RequirementView::Single(ValueView::Boolean(v)),
    {
        Requirement::Single(Value::Boolean(v))
    }

    /// The requirement that a flag be set to a text.
    pub fn from_string(v: &str) -> (r: Self)
        ensures
            r@ == RequirementView::Single(ValueView::Text(v@)),
    {
        Requirement::Single(Value::Text(String::from_str(v)))
    }

    /// Whether a flag with this value meets the requirement.
    pub fn check(&self, value: &Value) -> (r: bool)
        ensures
            r == self@.admits(value@),
    {
        match self {
            Requirement::Single(required) => value.same(required),
            Requirement::Any(allowed) => Self::holds(allowed, value),
        }
    }

    /// Whether one of the values is `value`.
    fn holds(values: &Vec<Value>, value: &Value) -> (r: bool)
        ensures
            r == value_set(values@).contains(value@),
    {
        let mut i: usize = 0;
        while i < values.len()
            invariant
                i <= values.len(),
                forall|j: int| 0 <= j < i ==> (#[trigger] values@[j])@ != value@,
            decreases values.len() - i,
        {
            if values[i].same(value) {
                assert(values@[i as int]@ == value@);
                return true;
            }
            i += 1;
        }
        false
    }

    /// Whether each of the values of `a` is one of the values of `b`.
    fn within(a: &Vec<Value>, b: &Vec<Value>) -> (r: bool)
        ensures
            r == value_set(a@).subset_of(value_set(b@)),
    {
        let mut i: usize = 0;
        while i < a.len()
            invariant
                i <= a.len(),
                forall|j: int| 0 <= j < i ==> value_set(b@).contains((#[trigger] a@[j])@),
            decreases a.len() - i,
        {
            if !Self::holds(b, &a[i]) {
                assert(value_set(a@).contains(a@[i as int]@));
                return false;
            }
            i += 1;
        }
        assert forall|v: ValueView| value_set(a@).contains(v) implies value_set(b@).contains(v) by {
            let j = choose|j: int| 0 <= j < a@.len() && (#[trigger] a@[j])@ == v;
            assert(value_set(b@).contains(a@[j]@));
        }
        true
    }

    /// Whether two requirements ask the same.
    pub fn same(&self, other: &Requirement) -> (r: bool)
        ensures
            r == (self@ == other@),
    {
        match (self, other) {
            (Requirement::Single(a), Requirement::Single(b)) => a.same(b),
            (Requirement::Any(a), Requirement::Any(b)) => {
                let r = Self::within(a, b) && Self::within(b, a);
                proof {
                    if r {
                        assert(value_set(a@) =~= value_set(b@));
                    }
                }
                r
            },
            _ => false,
        }
    }
}

/// Whether each requirement of `a` is a requirement of `b`, for the same
/// flag.
fn conjunction_within(a: &StrMap<FlagId, Requirement>, b: &StrMap<FlagId, Requirement>) -> (r: bool)
    ensures
        r == a@.submap_of(b@),
{
    let n = a.len();
    let ghost pairs = a.pairs();
    let mut i: usize = 0;
    while i < n
        invariant
            i <= n,
            n == pairs.len(),
            pairs == a.pairs(),
            lists(pairs, a.map()),
            forall|j: int| 0 <= j < i ==> b@.dom().contains((#[trigger] pairs[j]).0) && b@[pairs[j].0] == pairs[j].1@,
        decreases n - i,
    {
        let ghost k = pairs[i as int].0;
        assert(a@.dom().contains(k) && a@[k] == pairs[i as int].1@);
        let same = match b.get(a.key(i).as_str()) {
            Some(theirs) => theirs.same(a.value(i)),
            None => false,
        };
        if !same {
            assert(!(b@.dom().contains(k) && a@[k] == b@[k]));
            return false;
        }
        assert(b@.dom().contains(k) && b@[k] == pairs[i as int].1@);
        i += 1;
    }
    assert forall|k: Seq<char>| #[trigger] a@.dom().contains(k) implies #[trigger] b@.dom().contains(k) && a@[k]
        == b@[k] by {
        assert(a.map().dom().contains(k));
        let j = choose|j: int| 0 <= j < pairs.len() && (#[trigger] pairs[j]).0 == k;
        assert(b@[pairs[j].0] == pairs[j].1@);
    }
    true
}

/// Whether two conjunctions ask the same of the same flags.
fn conjunction_same(a: &StrMap<FlagId, Requirement>, b: &StrMap<FlagId, Requirement>) -> (r: bool)
    ensures
        r == (a@ == b@),
{
    let r = conjunction_within(a, b) && conjunction_within(b, a);
    proof {
        if r {
            assert(a@ =~= b@);
        }
    }
    r
}

/// Whether one of the conjunctions asks the same as `conjunction`.
fn conjunction_among(list: &Vec<StrMap<FlagId, Requirement>>, conjunction: &StrMap<FlagId, Requirement>) -> (r: bool)
    ensures
        r == conjunction_set(list@).contains(conjunction@),
{
    let mut i: usize = 0;
    while i < list.len()
        invariant
            i <= list.len(),
            forall|j: int| 0 <= j < i ==> (#[trigger] list@[j])@ != conjunction@,
        decreases list.len() - i,
    {
        if conjunction_same(&list[i], conjunction) {
            return true;
        }
        i += 1;
    }
    false
}

/// A list with one more conjunction stands for the set with one more member.
proof fn lemma_conjunction_push(list: Seq<StrMap<FlagId, Requirement>>, conjunction: StrMap<FlagId, Requirement>)
    ensures
        conjunction_set(list.push(conjunction)) == conjunction_set(list).insert(conjunction@),
{
    let after = list.push(conjunction);
    assert forall|c: Map<Seq<char>, RequirementView>| conjunction_set(after).contains(c) <==> conjunction_set(list).insert(
        conjunction@,
    ).contains(c) by {
        if conjunction_set(list).contains(c) {
            let i = choose|i: int| 0 <= i < list.len() && (#[trigger] list[i])@ == c;
            assert(after[i]@ == c);
        }
        if c == conjunction@ {
            assert(after[list.len() as int]@ == c);
        }
        if conjunction_set(after).contains(c) {
            let i = choose|i: int| 0 <= i < after.len() && (#[trigger] after[i])@ == c;
            if i < list.len() {
                assert(list[i]@ == c);
            }
        }
    }
    assert(conjunction_set(after) =~= conjunction_set(list).insert(conjunction@));
}

/// The model of a [`Flag`]. Its `requirements` are a disjunction of conjunctions:
/// each member maps flags to what is required of them.
pub struct FlagView {
    pub description: Seq<char>,
    pub variable: Option<Seq<char>>,
    pub requirements: Set<Map<Seq<char>, RequirementView>>,
}

/// Whether every requirement of one conjunction holds in the setting.
pub open spec fn conjunction_holds(
    conjunction: Map<Seq<char>, RequirementView>,
    setting: Map<Seq<char>, ValueView>,
) -> bool {
    forall|flag: Seq<char>| #[trigger]
        conjunction.dom().contains(flag) ==> conjunction[flag].admits(lookup(setting, flag))
}

/// Whether at least one conjunction holds in the setting.
pub open spec fn satisfied(
    requirements: Set<Map<Seq<char>, RequirementView>>,
    setting: Map<Seq<char>, ValueView>,
) -> bool {
    exists|conjunction: Map<Seq<char>, RequirementView>| #[trigger]
        requirements.contains(conjunction) && conjunction_holds(conjunction, setting)
}

/// Whether the flag has any requirement at all.
pub open spec fn gated(requirements: Set<Map<Seq<char>, RequirementView>>) -> bool {
    exists|conjunction: Map<Seq<char>, RequirementView>| requirements.contains(conjunction)
}

/// Whether the flag may be set to the value in the setting. A flag without
/// requirements takes any value; one with requirements can always be
/// switched off, can be switched on where a conjunction holds, and takes no
/// text.
pub open spec fn admitted(flag: FlagView, setting: Map<Seq<char>, ValueView>, value: ValueView) -> bool {
    ||| !gated(flag.requirements)
    ||| value == ValueView::Boolean(false)
    ||| (value == ValueView::Boolean(true) && satisfied(flag.requirements, setting))
}

/// The models of a sequence of conjunctions, as a set.
pub open spec fn conjunction_set(requirements: Seq<StrMap<FlagId, Requirement>>) -> Set<Map<Seq<char>, RequirementView>> {
    Set::new(
        |c: Map<Seq<char>, RequirementView>|
            exists|i: int| 0 <= i < requirements.len() && (#[trigger] requirements[i])@ == c,
    )
}

/// Definition of a configuration option.
#[derive(Debug, Clone, PartialEq, Eq)]
pub struct Flag {
    description: String,
    /// The variable of the build generator that the flag is passed as.
    variable: Option<String>,
    requirements: Vec<StrMap<FlagId, Requirement>>,
}

impl View for Flag {
    type V = FlagView;

    closed spec fn view(&self) -> FlagView {
        FlagView {
            description: self.description@,
            variable: match self.variable {
                Some(v) => Some(v@),
                None => None,
            },
            requirements: conjunction_set(self.requirements@),
        }
    }
}

impl Named for Flag {
    type Id = FlagId;
}

impl Flag {
    /// A flag with a description, the variable it is passed as, and the
    /// conjunctions of which one has to hold for it to be switched on.
    pub fn new(description: &str, variable: Option<&str>, requirements: Vec<StrMap<FlagId, Requirement>>) -> (flag: Self)
        ensures
            flag@.description == description@,
            flag@.variable == (match variable {
                Some(v) => Some(v@),
                None => None,
            }),
            flag@.requirements == conjunction_set(requirements@),
    {
        Flag {
            description: String::from_str(description),
            variable: match variable {
                Some(v) => Some(String::from_str(v)),
                None => None,
            },
            requirements,
        }
    }

    /// Whether every requirement of one conjunction holds in the setting.
    fn check_conjunction(conjunction: &StrMap<FlagId, Requirement>, setting: &Setting) -> (r: bool)
        ensures
            r == conjunction_holds(conjunction@, setting@),
    {
        let n = conjunction.len();
        let ghost pairs = conjunction.pairs();
        let mut i: usize = 0;
        while i < n
            invariant
                i <= n,
                n == pairs.len(),
                pairs == conjunction.pairs(),
                lists(pairs, conjunction.map()),
                forall|j: int| 0 <= j < i ==> (#[trigger] pairs[j]).1@.admits(lookup(setting@, pairs[j].0)),
            decreases n - i,
        {
            let value = setting.flag(conjunction.key(i));
            if !conjunction.value(i).check(&value) {
                proof {
                    let k = pairs[i as int].0;
                    assert(conjunction@.dom().contains(k));
                    assert(conjunction@[k] == pairs[i as int].1@);
                }
                return false;
            }
            i += 1;
        }
        proof {
            assert forall|flag: Seq<char>| #[trigger] conjunction@.dom().contains(flag) implies conjunction@[flag].admits(lookup(setting@, flag)) by {
                assert(conjunction.map().dom().contains(flag));
                let j = choose|j: int| 0 <= j < pairs.len() && (#[trigger] pairs[j]).0 == flag;
                assert(pairs[j].1@.admits(lookup(setting@, pairs[j].0)));
            }
        }
        true
    }

    /// Checks that requirements are met in a given setting for the flag to
    /// be switched on.
    fn check_requirements(self_ref: NameRef<Flag>, setting: &Setting) -> (r: Result<(), Error>)
        ensures
            r is Ok <==> satisfied(self_ref.item()@.requirements, setting@),
            r matches Err(e) ==> (e matches Error::Unsatisfied(name) && name@ == self_ref.id()@),
    {
        let flag = self_ref.get();
        let mut i: usize = 0;
        while i < flag.requirements.len()
            invariant
                i <= flag.requirements.len(),
                flag == self_ref.item(),
                forall|j: int| 0 <= j < i ==> !conjunction_holds((#[trigger] flag.requirements@[j])@, setting@),
            decreases flag.requirements.len() - i,
        {
            if Self::check_conjunction(&flag.requirements[i], setting) {
                assert(flag@.requirements.contains(flag.requirements@[i as int]@));
                return Ok(());
            }
            i += 1;
        }
        Err(Error::Unsatisfied(self_ref.name().to_string()))
    }

    /// Checks that a flag can be set to the given value.
    pub fn validate(self_ref: NameRef<Flag>, setting: &Setting, value: &Value) -> (r: Result<(), Error>)
        ensures
            r is Ok <==> admitted(self_ref.item()@, setting@, value@),
            r matches Err(e) ==> (match e {
                Error::Unsatisfied(name) => name@ == self_ref.id()@ && value@ == ValueView::Boolean(true),
                Error::InvalidValue(name, text) => name@ == self_ref.id()@ && value@ is Text && text@
                    == value_text(value@),
                _ => false,
            }),
    {
        let flag = self_ref.get();
        if flag.requirements.len() > 0 {
            assert(flag@.requirements.contains(flag.requirements@[0]@));
            match value {
                Value::Boolean(true) => Self::check_requirements(self_ref, setting),
                Value::Boolean(false) => Ok(()),
                _ => Err(Error::InvalidValue(self_ref.name().to_string(), value.to_string())),
            }
        } else {
            Ok(())
        }
    }
}

impl Flag {
    /// What the flag is for.
    pub fn description(&self) -> (s: &str)
        ensures
            s@ == self@.description,
    {
        self.description.as_str()
    }

    /// The variable of the build generator that the flag is passed as.
    pub fn variable(&self) -> (r: &Option<String>)
        ensures
            opt_text(*r) == self@.variable,
    {
        &self.variable
    }

    /// The conjunctions of which one has to hold for the flag to be switched
    /// on.
    pub fn requirements(&self) -> (r: &Vec<StrMap<FlagId, Requirement>>)
        ensures
            conjunction_set(r@) == self@.requirements,
    {
        &self.requirements
    }

    /// The argument that sets the flag's variable for the build generator:
    /// `-D`, the variable, `=` and the value. A flag without a variable
    /// gives none.
    pub fn cmake_flag(&self, value: &Value) -> (r: Option<String>)
        ensures
            match r {
                Some(argument) => self@.variable matches Some(variable) && argument@ == "-D"@ + variable
                    + "="@ + cmake_text(value@),
                None => self@.variable is None,
            },
    {
        match &self.variable {
            Some(variable) => {
                let mut argument = String::from_str("-D");
                argument.append(variable.as_str());
                argument.append("=");
                argument.append(value.cmake_str());
                Some(argument)
            },
            None => None,
        }
    }
}

/// Of a flag the variable and the requirements are layered; the description
/// stays as the first layer gave it.
impl Merge for Flag {
    open spec fn merged(a: FlagView, b: FlagView) -> FlagView {
        FlagView {
            description: a.description,
            variable: if b.variable is Some {
                b.variable
            } else {
                a.variable
            },
            requirements: a.requirements.union(b.requirements),
        }
    }

    fn merge(&mut self, other: Self) {
        let ghost a = self@;
        let ghost b = other@;
        let Flag { description: _, variable, requirements } = other;
        self.variable.merge(variable);
        let mut theirs = requirements;
        let ghost all = theirs@;
        let mut mine: Vec<StrMap<FlagId, Requirement>> = Vec::new();
        std::mem::swap(&mut self.requirements, &mut mine);
        assert(all.skip(all.len() as int) =~= Seq::empty());
        assert(conjunction_set(mine@) =~= a.requirements.union(conjunction_set(all.skip(all.len() as int))));
        while theirs.len() > 0
            invariant
                theirs@.len() <= all.len(),
                theirs@ == all.take(theirs@.len() as int),
                conjunction_set(mine@) == a.requirements.union(conjunction_set(all.skip(theirs@.len() as int))),
            decreases theirs.len(),
        {
            let ghost n = theirs@.len() as int;
            let ghost before = mine@;
            let conjunction = theirs.pop().unwrap();
            assert(theirs@ =~= all.take(n - 1));
            assert(conjunction == all[n - 1]);
            proof {
                let rest = all.skip(n);
                let more = all.skip(n - 1);
                assert forall|c: Map<Seq<char>, RequirementView>| conjunction_set(more).contains(c) <==> conjunction_set(
                    rest,
                ).contains(c) || c == conjunction@ by {
                    if conjunction_set(rest).contains(c) {
                        let i = choose|i: int| 0 <= i < rest.len() && (#[trigger] rest[i])@ == c;
                        assert(more[i + 1]@ == c);
                    }
                    if c == conjunction@ {
                        assert(more[0]@ == c);
                    }
                    if conjunction_set(more).contains(c) {
                        let i = choose|i: int| 0 <= i < more.len() && (#[trigger] more[i])@ == c;
                        if i > 0 {
                            assert(rest[i - 1]@ == c);
                        }
                    }
                }
                lemma_conjunction_push(before, conjunction);
            }
            if !conjunction_among(&mine, &conjunction) {
                mine.push(conjunction);
            }
            assert(conjunction_set(mine@) =~= a.requirements.union(conjunction_set(all.skip(n - 1))));
        }
        assert(all.skip(0) =~= all);
        self.requirements = mine;
    }
}

/// The value of a flag in a setting; a flag that is not set counts as
/// switched off.
pub open spec fn lookup(setting: Map<Seq<char>, ValueView>, flag: Seq<char>) -> ValueView {
    if setting.dom().contains(flag) {
        setting[flag]
    } else {
        ValueView::Boolean(false)
    }
}

/// Setting a set of options to particular values.
#[derive(Debug, PartialEq, Eq)]
pub struct Setting {
    flags: StrMap<FlagId, Value>,
}

impl View for Setting {
    type V = Map<Seq<char>, ValueView>;

    closed spec fn view(&self) -> Map<Seq<char>, ValueView> {
        self.flags@
    }
}

impl Default for Setting {
    fn default() -> (r: Self)
        ensures
            r@ == Map::<Seq<char>, ValueView>::empty(),
    {
        let r = Setting { flags: StrMap::new() };
        assert(r@ =~= Map::<Seq<char>, ValueView>::empty());
        r
    }
}

impl Clone for Setting {
    fn clone(&self) -> (r: Self)
        ensures
            r@ == self@,
    {
        let mut r = Setting::default();
        let n = self.flags.len();
        let mut i: usize = 0;
        while i < n
            invariant
                i <= n,
                n == self.flags.pairs().len(),
                lists(self.flags.pairs(), self.flags.map()),
                r@.dom() =~= Set::new(|k: Seq<char>| exists|j: int| 0 <= j < i && (#[trigger] self.flags.pairs()[j]).0 == k),
                forall|k: Seq<char>| #[trigger] r@.dom().contains(k) ==> r@[k] == self@[k],
            decreases n - i,
        {
            let ghost before = r.flags.map();
            let key = self.flags.key(i).clone();
            let value = self.flags.value(i).clone();
            proof {
                crate::ordered::lemma_models_insert(before, key@, value);
            }
            r.flags.insert(key, value);
            i += 1;
        }
        assert(r@ =~= self@);
        r
    }
}

impl Setting {
    const PLATFORM_FLAG: &'static str = "platform";

    const KERNEL_PLATFORM_FLAG: &'static str = "kernel-platform";

    /// The entries of the setting in the order of the flags' names.
    pub closed spec fn entries(&self) -> Seq<(Seq<char>, ValueView)> {
        model_pairs(self.flags.pairs())
    }

    /// The flags that are set, with their values, in the order of their
    /// names.
    pub fn flags(&self) -> (r: Vec<(FlagId, Value)>)
        ensures
            lists(self.entries(), self@),
            r@.len() == self.entries().len(),
            forall|i: int| 0 <= i < r@.len() ==> (#[trigger] r@[i]).0@ == self.entries()[i].0 && r@[i].1@ == self.entries()[i].1,
    {
        let mut r: Vec<(FlagId, Value)> = Vec::new();
        let n = self.flags.len();
        proof {
            lemma_model_lists(self.flags.pairs(), self.flags.map());
        }
        let mut i: usize = 0;
        while i < n
            invariant
                i <= n,
                n == self.flags.pairs().len(),
                r@.len() == i,
                forall|j: int| 0 <= j < i ==> (#[trigger] r@[j]).0@ == self.entries()[j].0 && r@[j].1@ == self.entries()[j].1,
            decreases n - i,
        {
            r.push((self.flags.key(i).clone(), self.flags.value(i).clone()));
            i += 1;
        }
        r
    }

    /// The setting of a particular flag; one that is not set is off.
    pub fn flag(&self, flag: &FlagId) -> (value: Value)
        ensures
            value@ == lookup(self@, flag@),
    {
        match self.flags.get(flag.as_str()) {
            Some(value) => value.clone(),
            None => Value::Boolean(false),
        }
    }

    /// Sets a flag to a value.
    pub fn set(&mut self, flag: FlagId, value: Value)
        ensures
            final(self)@ == old(self)@.insert(flag@, value@),
    {
        proof {
            crate::ordered::lemma_models_insert(self.flags.map(), flag@, value);
        }
        self.flags.insert(flag, value);
    }

    /// Sets a flag to a truth value.
    pub fn set_bool(&mut self, flag: &str, value: bool)
        ensures
            final(self)@ == old(self)@.insert(flag@, ValueView::Boolean(value)),
    {
        self.set(FlagId::new(flag), Value::Boolean(value));
    }

    /// Sets a flag to a text.
    pub fn set_text(&mut self, flag: &str, value: &str)
        ensures
            final(self)@ == old(self)@.insert(flag@, ValueView::Text(value@)),
    {
        self.set(FlagId::new(flag), Value::Text(String::from_str(value)));
    }

    /// Sets the flag that names the platform of the build.
    pub fn set_platform(&mut self, platform: &str)
        ensures
            final(self)@ == old(self)@.insert("platform"@, ValueView::Text(platform@)),
    {
        self.set_text(Self::PLATFORM_FLAG, platform);
    }

    /// Sets the flag that names the platform of the kernel.
    pub fn set_kernel_platform(&mut self, platform: &str)
        ensures
            final(self)@ == old(self)@.insert("kernel-platform"@, ValueView::Text(platform@)),
    {
        self.set_text(Self::KERNEL_PLATFORM_FLAG, platform);
    }
}

/// The entries of a setting as they are shown: the flag, a colon and the
/// value, with a comma between neighbours.
pub open spec fn entries_text(entries: Seq<(Seq<char>, ValueView)>) -> Seq<char>
    decreases entries.len(),
{
    if entries.len() == 0 {
        Seq::empty()
    } else {
        entries_text(entries.drop_last()) + (if entries.len() > 1 {
            ","@
        } else {
            Seq::empty()
        }) + " "@ + entries.last().0 + ": "@ + value_text(entries.last().1)
    }
}

/// A setting as it is shown: its entries in braces, in the order of the
/// flags' names.
pub open spec fn setting_text(entries: Seq<(Seq<char>, ValueView)>) -> Seq<char> {
    "{"@ + entries_text(entries) + (if entries.len() > 0 {
        " "@
    } else {
        Seq::empty()
    }) + "}"@
}

impl Setting {
    /// The setting as it is shown in messages.
    pub fn to_string(&self) -> (r: String)
        ensures
            r@ == setting_text(self.entries()),
    {
        let entries = self.flags();
        let ghost listed = self.entries();
        let mut r = String::from_str("{");
        let mut i: usize = 0;
        assert(listed.take(0) =~= Seq::empty());
        assert(r@ =~= "{"@ + entries_text(listed.take(0)));
        while i < entries.len()
            invariant
                i <= entries.len(),
                entries@.len() == listed.len(),
                forall|k: int| 0 <= k < entries@.len() ==> (#[trigger] entries@[k]).0@ == listed[k].0 && entries@[k].1@ == listed[k].1,
                r@ == "{"@ + entries_text(listed.take(i as int)),
            decreases entries.len() - i,
        {
            let ghost before = entries_text(listed.take(i as int));
            let ghost now = listed.take(i + 1);
            assert(now.drop_last() =~= listed.take(i as int));
            assert(now.last() == listed[i as int]);
            if i > 0 {
                r.append(",");
            }
            r.append(" ");
            r.append(entries[i].0.as_str());
            r.append(": ");
            r.append(entries[i].1.to_string().as_str());
            assert(r@ =~= "{"@ + entries_text(now));
            i += 1;
        }
        assert(listed.take(entries@.len() as int) =~= listed);
        if entries.len() > 0 {
            r.append(" ");
        }
        r.append("}");
        assert(r@ =~= setting_text(listed));
        r
    }

    /// The setting that a list of entries gives; of two entries for one
    /// flag the later one stands.
    pub fn from_entries(entries: Vec<(FlagId, Value)>) -> (r: Self)
        ensures
            r@ == assigned(entries@),
    {
        let mut r = Setting::default();
        let mut i: usize = 0;
        assert(entries@.take(0) =~= Seq::empty());
        while i < entries.len()
            invariant
                i <= entries.len(),
                r@ == assigned(entries@.take(i as int)),
            decreases entries.len() - i,
        {
            assert(entries@.take(i + 1).drop_last() =~= entries@.take(i as int));
            r.set(entries[i].0.clone(), entries[i].1.clone());
            i += 1;
        }
        assert(entries@.take(entries@.len() as int) =~= entries@);
        r
    }
}

/// The setting that a list of entries gives, each set in turn.
pub open spec fn assigned(entries: Seq<(FlagId, Value)>) -> Map<Seq<char>, ValueView>
    decreases entries.len(),
{
    if entries.len() == 0 {
        Map::empty()
    } else {
        assigned(entries.drop_last()).insert(entries.last().0@, entries.last().1@)
    }
}

/// A setting merges as a mapping of terminal values: the entries of both,
/// and where both set a flag the value of `other`.
impl Merge for Setting {
    open spec fn merged(a: Map<Seq<char>, ValueView>, b: Map<Seq<char>, ValueView>) -> Map<Seq<char>, ValueView> {
        a.union_prefer_right(b)
    }

    fn merge(&mut self, other: Self) {
        proof {
            assert(crate::config::merged_maps::<Value>(self@, other@) =~= self@.union_prefer_right(other@));
        }
        self.flags.merge(other.flags);
    }
}

/// Merging the empty setting into a setting leaves the setting as it was.
pub proof fn lemma_merge_empty(a: Map<Seq<char>, ValueView>)
    ensures
        Setting::merged(a, Map::empty()) == a,
{
    assert(a.union_prefer_right(Map::empty()) =~= a);
}

/// Merging a layer a second time changes nothing.
pub proof fn lemma_merge_idempotent(a: Map<Seq<char>, ValueView>, b: Map<Seq<char>, ValueView>)
    ensures
        Setting::merged(Setting::merged(a, b), b) == Setting::merged(a, b),
{
    assert(a.union_prefer_right(b).union_prefer_right(b) =~= a.union_prefer_right(b));
}

/// Merging is associative: layers can be combined before they are applied.
pub proof fn lemma_merge_associative(
    a: Map<Seq<char>, ValueView>,
    b: Map<Seq<char>, ValueView>,
    c: Map<Seq<char>, ValueView>,
)
    ensures
        Setting::merged(Setting::merged(a, b), c) == Setting::merged(a, Setting::merged(b, c)),
{
    assert(a.union_prefer_right(b).union_prefer_right(c) =~= a.union_prefer_right(
        b.union_prefer_right(c),
    ));
}

/// A flag with two alternatives, each of which asks one flag for one
/// value, can be switched on exactly where one of the two flags has its
/// value; it can always be switched off, and takes no text.
pub proof fn lemma_two_alternatives(
    flag: FlagView,
    x: Seq<char>,
    wants_x: ValueView,
    y: Seq<char>,
    wants_y: ValueView,
    setting: Map<Seq<char>, ValueView>,
    text: Seq<char>,
)
    requires
        flag.requirements == set![
            map![x => RequirementView::Single(wants_x)],
            map![y => RequirementView::Single(wants_y)],
        ],
    ensures
        admitted(flag, setting, ValueView::Boolean(true)) <==> lookup(setting, x) == wants_x || lookup(setting, y)
            == wants_y,
        admitted(flag, setting, ValueView::Boolean(false)),
        !admitted(flag, setting, ValueView::Text(text)),
{
    let first = map![x => RequirementView::Single(wants_x)];
    let second = map![y => RequirementView::Single(wants_y)];
    assert(flag.requirements.contains(first));
    assert(flag.requirements.contains(second));
    assert(first.dom().contains(x));
    assert(second.dom().contains(y));
    assert(conjunction_holds(first, setting) <==> lookup(setting, x) == wants_x);
    assert(conjunction_holds(second, setting) <==> lookup(setting, y) == wants_y);
    if satisfied(flag.requirements, setting) {
        let c = choose|c: Map<Seq<char>, RequirementView>| #[trigger]
            flag.requirements.contains(c) && conjunction_holds(c, setting);
        assert(c == first || c == second);
    }
}

} // verus!
