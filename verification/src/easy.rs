//! The flags that a project's settings file offers: one for each variable
//! that the file sets in the form that the build generator takes them in.

use vstd::prelude::*;
use vstd::string::StringExecFns;
use crate::cmake::{conjunction_set, Flag, FlagId, FlagView, Requirement};
use crate::config::NamedMap;
use crate::ordered::{texts, StrMap};
use crate::pattern::{captures, group_texts, regex_captures};
use crate::text::{chars_of, trim, trimmed};

verus! {

/// Appends a character to a string.
///
/// Calls `String::push`, which adds the character at the end.
#[verifier::external_body]
fn push_char(s: &mut String, c: char)
    ensures
        final(s)@ == old(s)@.push(c),
{
    s.push(c)
}

/// Whether a character is one of the capital letters `A` to `Z`.
pub open spec fn is_upper(c: char) -> bool {
    0x41 <= c as u32 <= 0x5a
}

/// The small letter of a capital letter `A` to `Z`; any other character is
/// left as it is.
pub open spec fn lower(c: char) -> char {
    if is_upper(c) {
        ((c as u8 + 32) as u8) as char
    } else {
        c
    }
}

/// Whether a name is written in capitals and underscores only.
pub open spec fn screaming(name: Seq<char>) -> bool {
    forall|i: int| 0 <= i < name.len() ==> is_upper(#[trigger] name[i]) || name[i] == '_'
}

/// A name of capitals and underscores in small letters, with a hyphen for
/// each underscore.
pub open spec fn snake_kebab(name: Seq<char>) -> Seq<char> {
    Seq::new(
        name.len(),
        |i: int|
            if name[i] == '_' {
                '-'
            } else {
                lower(name[i])
            },
    )
}

/// A name of joined words in small letters, with a hyphen before each
/// capital but the first character.
pub open spec fn pascal_kebab(name: Seq<char>) -> Seq<char>
    decreases name.len(),
{
    if name.len() == 0 {
        Seq::empty()
    } else {
        let rest = pascal_kebab(name.drop_last());
        if is_upper(name.last()) && name.len() > 1 {
            rest.push('-').push(lower(name.last()))
        } else {
            rest.push(lower(name.last()))
        }
    }
}

/// The identifier of the flag for a variable of the build generator.
pub open spec fn kebab(name: Seq<char>) -> Seq<char> {
    if screaming(name) {
        snake_kebab(name)
    } else {
        pascal_kebab(name)
    }
}

/// The small letter of a capital letter.
fn to_lower(c: char) -> (r: char)
    ensures
        r == lower(c),
{
    let u = c as u32;
    if 0x41 <= u && u <= 0x5a {
        ((c as u8) + 32) as char
    } else {
        c
    }
}

/// The identifier of the flag for a variable of the build generator.
pub fn identifier(variable: &str) -> (r: String)
    ensures
        r@ == kebab(variable@),
{
    let chars = chars_of(variable);
    let mut all: bool = true;
    let mut i: usize = 0;
    while i < chars.len()
        invariant
            i <= chars.len(),
            all <==> forall|j: int| 0 <= j < i ==> is_upper(#[trigger] chars@[j]) || chars@[j] == '_',
        decreases chars.len() - i,
    {
        let u = chars[i] as u32;
        if !((0x41 <= u && u <= 0x5a) || chars[i] == '_') {
            all = false;
        }
        i += 1;
    }
    let mut r = String::new();
    let mut k: usize = 0;
    if all {
        while k < chars.len()
            invariant
                k <= chars.len(),
                chars@ == variable@,
                r@ == snake_kebab(chars@).take(k as int),
            decreases chars.len() - k,
        {
            let c = if chars[k] == '_' {
                '-'
            } else {
                to_lower(chars[k])
            };
            push_char(&mut r, c);
            assert(r@ =~= snake_kebab(chars@).take(k + 1));
            k += 1;
        }
        assert(snake_kebab(chars@).take(chars@.len() as int) =~= snake_kebab(chars@));
    } else {
        assert(chars@.take(0) =~= Seq::empty());
        while k < chars.len()
            invariant
                k <= chars.len(),
                chars@ == variable@,
                r@ == pascal_kebab(chars@.take(k as int)),
            decreases chars.len() - k,
        {
            assert(chars@.take(k + 1).drop_last() =~= chars@.take(k as int));
            let u = chars[k] as u32;
            if 0x41 <= u && u <= 0x5a && k > 0 {
                push_char(&mut r, '-');
            }
            push_char(&mut r, to_lower(chars[k]));
            k += 1;
        }
        assert(chars@.take(chars@.len() as int) =~= chars@);
    }
    r
}

/// The pattern of a line that sets a variable: `set(`, the variable, two
/// more words, the type and the description in quotes.
pub const SETTING_PATTERN: &'static str =
    "^set\\((?P<variable>[A-Za-z][A-Za-z0-9_]*)( [^ ]+){2} (?P<type>[A-Z]+) \"(?P<description>[^\"]*)\"\\)$";

/// The flag that the groups of a matching line describe: it is filed under
/// the identifier of the variable, is passed as the variable, bears the
/// description and has no requirements. The variable is the first group and
/// the description the fourth of four.
pub open spec fn easy_flag(groups: Seq<Option<Seq<char>>>) -> Option<(Seq<char>, FlagView)> {
    if groups.len() == 5 && groups[1] is Some && groups[4] is Some {
        Some(
            (
                kebab(groups[1]->0),
                FlagView { description: groups[4]->0, variable: groups[1], requirements: Set::empty() },
            ),
        )
    } else {
        None
    }
}

/// The flag that the groups of a matching line describe.
pub fn easy_setting(groups: &Vec<Option<String>>) -> (r: Option<(FlagId, Flag)>)
    ensures
        match r {
            Some((id, flag)) => easy_flag(group_texts(Some(*groups))->0) == Some((id@, flag@)),
            None => easy_flag(group_texts(Some(*groups))->0) is None,
        },
{
    if groups.len() != 5 {
        return None;
    }
    match (&groups[1], &groups[4]) {
        (Some(variable), Some(description)) => {
            let requirements: Vec<StrMap<FlagId, Requirement>> = Vec::new();
            assert(conjunction_set(requirements@) =~= Set::empty());
            Some(
                (
                    FlagId::from(identifier(variable.as_str())),
                    Flag::new(description.as_str(), Some(variable.as_str()), requirements),
                ),
            )
        },
        _ => None,
    }
}

/// The flags that the first `n` lines of a settings file offer. A later
/// line replaces the flag of an earlier one of the same identifier.
pub open spec fn easy_upto(lines: Seq<Seq<char>>, n: int) -> Map<Seq<char>, FlagView>
    decreases n,
{
    if n <= 0 {
        Map::empty()
    } else {
        let before = easy_upto(lines, n - 1);
        match regex_captures(SETTING_PATTERN@, trimmed(lines[n - 1])) {
            Some(Some(groups)) => match easy_flag(groups) {
                Some((id, flag)) => before.insert(id, flag),
                None => before,
            },
            _ => before,
        }
    }
}

/// Whether the pattern is taken for each of the first `n` lines.
pub open spec fn searchable(lines: Seq<Seq<char>>, n: int) -> bool {
    forall|i: int| 0 <= i < n ==> regex_captures(SETTING_PATTERN@, trimmed(#[trigger] lines[i])) is Some
}

/// The flags that a project's settings file offers, from the lines of the
/// file; a workspace without the file offers none.
pub fn easy_settings(lines: Option<&Vec<String>>) -> (r: Result<NamedMap<Flag>, crate::error::Error>)
    ensures
        match r {
            Ok(flags) => match lines {
                Some(list) => searchable(texts(list@), list@.len() as int) && flags@ == easy_upto(
                    texts(list@),
                    list@.len() as int,
                ),
                None => flags@ == Map::<Seq<char>, FlagView>::empty(),
            },
            Err(e) => e is InvalidPattern && (lines matches Some(list) && !searchable(
                texts(list@),
                list@.len() as int,
            )),
        },
{
    let mut flags: NamedMap<Flag> = NamedMap::new();
    let list = match lines {
        Some(list) => list,
        None => {
            return Ok(flags);
        },
    };
    let mut i: usize = 0;
    while i < list.len()
        invariant
            i <= list.len(),
            lines == Some(list),
            searchable(texts(list@), i as int),
            flags@ == easy_upto(texts(list@), i as int),
        decreases list.len() - i,
    {
        let line = trim(list[i].as_str());
        assert(line@ == trimmed(texts(list@)[i as int]));
        match captures(SETTING_PATTERN, line.as_str()) {
            Some(Some(groups)) => {
                if let Some((id, flag)) = easy_setting(&groups) {
                    flags.insert(id, flag);
                }
            },
            Some(None) => {},
            None => {
                return Err(crate::error::Error::InvalidPattern);
            },
        }
        i += 1;
    }
    Ok(flags)
}

} // verus!
