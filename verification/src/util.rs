//! Paths as lists of components: the way from one directory to another.

use vstd::prelude::*;
use vstd::string::StringExecFns;
use crate::ordered::texts;
use crate::text::{chars_of, concat3, str_eq};

verus! {

/// The number of leading components that two paths share.
pub open spec fn common(from: Seq<Seq<char>>, to: Seq<Seq<char>>) -> int
    decreases from.len(),
{
    if from.len() == 0 || to.len() == 0 || from[0] != to[0] {
        0
    } else {
        1 + common(from.drop_first(), to.drop_first())
    }
}

/// The path that leads from the directory `from` to `to`, both given by
/// their components from the root: one step up for each component of `from`
/// that `to` does not share, then the components of `to` that `from` does
/// not share.
pub open spec fn relative(from: Seq<Seq<char>>, to: Seq<Seq<char>>) -> Seq<Seq<char>> {
    let k = common(from, to);
    Seq::new((from.len() - k) as nat, |i: int| ".."@) + to.skip(k)
}

/// The components written as one path, with a slash between neighbours.
pub open spec fn joined(parts: Seq<Seq<char>>) -> Seq<char>
    decreases parts.len(),
{
    if parts.len() == 0 {
        Seq::empty()
    } else if parts.len() == 1 {
        parts[0]
    } else {
        joined(parts.drop_last()) + "/"@ + parts.last()
    }
}

/// The path of `name` inside the directory `dir`: the name alone where the
/// directory is the empty path, else the directory and the name with one
/// slash between them.
pub open spec fn child(dir: Seq<char>, name: Seq<char>) -> Seq<char> {
    if dir.len() == 0 {
        name
    } else if dir.last() == '/' {
        dir + name
    } else {
        dir + "/"@ + name
    }
}

/// Two paths share `k` components where they agree on the first `k` and
/// part ways, or one of them ends, there.
pub proof fn lemma_common(from: Seq<Seq<char>>, to: Seq<Seq<char>>, k: int)
    requires
        0 <= k <= from.len(),
        k <= to.len(),
        forall|i: int| 0 <= i < k ==> from[i] == to[i],
        k < from.len() && k < to.len() ==> from[k] != to[k],
    ensures
        common(from, to) == k,
    decreases k,
{
    if k > 0 {
        let f = from.drop_first();
        let t = to.drop_first();
        assert(from[0] == to[0]);
        assert forall|i: int| 0 <= i < k - 1 implies f[i] == t[i] by {
            assert(from[i + 1] == to[i + 1]);
        }
        lemma_common(f, t, k - 1);
    }
}

/// The path that leads from the directory `from` to `to`.
pub fn relative_path(from: &Vec<String>, to: &Vec<String>) -> (r: Vec<String>)
    ensures
        texts(r@) == relative(texts(from@), texts(to@)),
{
    let mut k: usize = 0;
    while k < from.len() && k < to.len() && str_eq(from[k].as_str(), to[k].as_str())
        invariant
            k <= from.len(),
            k <= to.len(),
            forall|i: int| 0 <= i < k ==> from@[i]@ == to@[i]@,
        decreases from.len() - k,
    {
        k += 1;
    }
    proof {
        lemma_common(texts(from@), texts(to@), k as int);
    }
    let ghost steps = Seq::new((from@.len() - k) as nat, |i: int| ".."@);
    let mut r: Vec<String> = Vec::new();
    let mut i: usize = k;
    while i < from.len()
        invariant
            k <= i <= from.len(),
            steps == Seq::new((from@.len() - k) as nat, |i: int| ".."@),
            texts(r@) == steps.take(i - k),
        decreases from.len() - i,
    {
        let ghost before = texts(r@);
        r.push(String::from_str(".."));
        assert(texts(r@) =~= before.push(".."@));
        assert(steps[i - k] == ".."@);
        assert(steps.take(i + 1 - k) =~= steps.take(i - k).push(steps[i - k]));
        i += 1;
    }
    assert(steps.take(from@.len() - k) =~= steps);
    let ghost rest = texts(to@).skip(k as int);
    let mut j: usize = k;
    assert(texts(r@) =~= steps + rest.take(0));
    while j < to.len()
        invariant
            k <= j <= to.len(),
            rest == texts(to@).skip(k as int),
            texts(r@) == steps + rest.take(j - k),
        decreases to.len() - j,
    {
        let ghost before = texts(r@);
        r.push(to[j].clone());
        assert(texts(r@) =~= before.push(to@[j as int]@));
        assert(rest[j - k] == to@[j as int]@);
        assert(rest.take(j + 1 - k) =~= rest.take(j - k).push(rest[j - k]));
        assert(steps + rest.take(j + 1 - k) =~= (steps + rest.take(j - k)).push(rest[j - k]));
        j += 1;
    }
    assert(rest.take(to@.len() - k) =~= rest);
    r
}

/// The components written as one path.
pub fn join_path(parts: &Vec<String>) -> (r: String)
    ensures
        r@ == joined(texts(parts@)),
{
    let mut r = String::new();
    let mut i: usize = 0;
    assert(texts(parts@).take(0) =~= Seq::empty());
    while i < parts.len()
        invariant
            i <= parts.len(),
            r@ == joined(texts(parts@).take(i as int)),
        decreases parts.len() - i,
    {
        let ghost before = texts(parts@).take(i as int);
        let ghost after = texts(parts@).take(i + 1);
        assert(after.drop_last() =~= before);
        assert(after.last() == parts@[i as int]@);
        if i > 0 {
            r.append("/");
        } else {
            assert(r@ + parts@[i as int]@ =~= parts@[i as int]@);
        }
        r.append(parts[i].as_str());
        i += 1;
    }
    assert(texts(parts@).take(parts@.len() as int) =~= texts(parts@));
    r
}

/// The path of `name` inside the directory `dir`.
pub fn child_path(dir: &str, name: &str) -> (r: String)
    ensures
        r@ == child(dir@, name@),
{
    let chars = chars_of(dir);
    if chars.len() == 0 {
        String::from_str(name)
    } else if chars[chars.len() - 1] == '/' {
        crate::text::concat2(dir, name)
    } else {
        concat3(dir, "/", name)
    }
}

/// The path that pushing `path` onto `base` gives: `path` itself where it
/// starts at the root, else `path` inside `base`.
pub open spec fn pushed(base: Seq<char>, path: Seq<char>) -> Seq<char> {
    if path.len() > 0 && path[0] == '/' {
        path
    } else {
        child(base, path)
    }
}

/// The path that pushing `path` onto `base` gives.
pub fn push_path(base: &str, path: &str) -> (r: String)
    ensures
        r@ == pushed(base@, path@),
{
    let chars = chars_of(path);
    if chars.len() > 0 && chars[0] == '/' {
        String::from_str(path)
    } else {
        child_path(base, path)
    }
}

} // verus!
