use vstd::prelude::*;

use crate::registry::{
    ApiCommand, CommandRegistry, category_names, command_names, first_index,
    lemma_first_index_none, lemma_first_index_some, registry_at, resolvable, views,
};

verus! {

/// Why a path of names does not lead to a command.
#[derive(Clone, Copy, Debug, PartialEq, Eq, Structural)]
pub enum ResolveError {
    /// The segment at `index`, which is not the last, names no category of the
    /// registry reached so far.
    InvalidPath { index: usize },
    /// Every category along the way was found, but the last segment names no
    /// command of the registry reached.
    NoCommandAtPath,
}

/// The outcome of looking `name` up among the commands of `reg`.
pub open spec fn final_step(reg: CommandRegistry, name: Seq<char>) -> Result<ApiCommand, ResolveError> {
    match first_index(command_names(reg), name) {
        Some(i) => Ok(reg.commands@[i]),
        None => Err(ResolveError::NoCommandAtPath),
    }
}

/// Resolution of `p` from `reg`, where `depth` segments were consumed before.
pub open spec fn resolve_from(reg: CommandRegistry, p: Seq<Seq<char>>, depth: int) -> Result<
    ApiCommand,
    ResolveError,
>
    decreases p.len(),
{
    if p.len() <= 1 {
        if p.len() == 0 {
            Err(ResolveError::NoCommandAtPath)
        } else {
            final_step(reg, p[0])
        }
    } else {
        match first_index(category_names(reg), p[0]) {
            Some(i) => resolve_from(reg.categories@[i].registry, p.drop_first(), depth + 1),
            None => Err(ResolveError::InvalidPath { index: depth as usize }),
        }
    }
}

/// Resolution of a whole path from the root.
pub open spec fn resolve_spec(reg: CommandRegistry, p: Seq<Seq<char>>) -> Result<
    ApiCommand,
    ResolveError,
> {
    resolve_from(reg, p, 0)
}

/// `p` is a full path to a command: its leading segments name categories along
/// the way, and its last one names a command of the registry they lead to.
pub open spec fn names_command(reg: CommandRegistry, p: Seq<Seq<char>>) -> bool {
    &&& p.len() >= 1
    &&& resolvable(reg, p.drop_last())
    &&& exists|k: int|
        0 <= k < command_names(registry_at(reg, p.drop_last())).len()
            && command_names(registry_at(reg, p.drop_last()))[k] == p.last()
}

/// Walks `path` from `registry`: every segment but the last must name a category,
/// and the last one a command of the registry reached; the first command of that
/// name is returned.
pub fn resolve<'a>(registry: &'a CommandRegistry, path: &[String]) -> (r: Result<
    &'a ApiCommand,
    ResolveError,
>)
    requires
        path@.len() >= 1,
    ensures
        match r {
            Ok(c) => resolve_spec(*registry, views(path@)) == Ok::<ApiCommand, ResolveError>(*c),
            Err(e) => resolve_spec(*registry, views(path@)) == Err::<ApiCommand, ResolveError>(e),
        },
{
    let ghost p = views(path@);
    let n = path.len();
    let mut current = registry;
    let mut i: usize = 0;
    assert(p.subrange(0, n as int) =~= p);
    while i + 1 < n
        invariant
            n == path@.len(),
            i < n,
            p == views(path@),
            resolve_spec(*registry, p) == resolve_from(*current, p.subrange(i as int, n as int), i as int),
        decreases n - i,
    {
        let ghost rest = p.subrange(i as int, n as int);
        assert(rest[0] == path@[i as int]@);
        assert(rest.drop_first() =~= p.subrange(i + 1, n as int));
        match current.find_category(&path[i]) {
            Some(k) => {
                current = &current.categories[k].registry;
            },
            None => {
                return Err(ResolveError::InvalidPath { index: i });
            },
        }
        i = i + 1;
    }
    assert(p.subrange(i as int, n as int)[0] == path@[i as int]@);
    match current.find_command(&path[i]) {
        Some(k) => Ok(&current.commands[k]),
        None => Err(ResolveError::NoCommandAtPath),
    }
}

/// Along a path whose leading segments all name categories, resolution ends with
/// the lookup of the last segment among the commands of the registry reached.
pub proof fn lemma_resolve_walk(reg: CommandRegistry, p: Seq<Seq<char>>, depth: int)
    requires
        p.len() >= 1,
        resolvable(reg, p.drop_last()),
    ensures
        resolve_from(reg, p, depth) == final_step(registry_at(reg, p.drop_last()), p.last()),
    decreases p.len(),
{
    if p.len() > 1 {
        let q = p.drop_last();
        assert(q[0] == p[0]);
        let i = first_index(category_names(reg), p[0]).unwrap();
        let child = reg.categories@[i].registry;
        assert(q.drop_first() =~= p.drop_first().drop_last());
        lemma_resolve_walk(child, p.drop_first(), depth + 1);
    } else {
        assert(p.drop_last() =~= Seq::<Seq<char>>::empty());
    }
}

/// A full path to a command resolves to exactly that command: the first one of
/// its name in the registry that the leading segments lead to.
pub proof fn lemma_resolve_finds_command(reg: CommandRegistry, p: Seq<Seq<char>>)
    requires
        names_command(reg, p),
    ensures
        resolve_spec(reg, p) == Ok::<ApiCommand, ResolveError>(
            registry_at(reg, p.drop_last()).commands@[first_index(
                command_names(registry_at(reg, p.drop_last())),
                p.last(),
            ).unwrap()],
        ),
        first_index(command_names(registry_at(reg, p.drop_last())), p.last()) is Some,
{
    let names = command_names(registry_at(reg, p.drop_last()));
    let k = choose|k: int| 0 <= k < names.len() && names[k] == p.last();
    lemma_first_index_some(names, p.last(), k);
    lemma_resolve_walk(reg, p, 0);
}

/// Where the leading segments all name categories but the last segment names no
/// command of the registry reached (it names a category, or nothing), resolution
/// fails with `NoCommandAtPath`.
pub proof fn lemma_resolve_no_command(reg: CommandRegistry, p: Seq<Seq<char>>)
    requires
        p.len() >= 1,
        resolvable(reg, p.drop_last()),
        forall|j: int|
            0 <= j < command_names(registry_at(reg, p.drop_last())).len()
                ==> command_names(registry_at(reg, p.drop_last()))[j] != p.last(),
    ensures
        resolve_spec(reg, p) == Err::<ApiCommand, ResolveError>(ResolveError::NoCommandAtPath),
{
    lemma_first_index_none(command_names(registry_at(reg, p.drop_last())), p.last());
    lemma_resolve_walk(reg, p, 0);
}

proof fn lemma_resolve_stops_from(reg: CommandRegistry, p: Seq<Seq<char>>, k: int, depth: int)
    requires
        0 <= k < p.len() - 1,
        0 <= depth,
        depth + p.len() <= usize::MAX,
        resolvable(reg, p.take(k)),
        forall|j: int|
            0 <= j < category_names(registry_at(reg, p.take(k))).len()
                ==> category_names(registry_at(reg, p.take(k)))[j] != p[k],
    ensures
        resolve_from(reg, p, depth) == Err::<ApiCommand, ResolveError>(
            ResolveError::InvalidPath { index: (depth + k) as usize },
        ),
    decreases k,
{
    if k == 0 {
        assert(p.take(0) =~= Seq::<Seq<char>>::empty());
        assert(registry_at(reg, p.take(0)) == reg);
        lemma_first_index_none(category_names(reg), p[0]);
    } else {
        let q = p.take(k);
        assert(q[0] == p[0]);
        let i = first_index(category_names(reg), p[0]).unwrap();
        let child = reg.categories@[i].registry;
        assert(q.drop_first() =~= p.drop_first().take(k - 1));
        assert(registry_at(reg, q) == registry_at(child, q.drop_first()));
        assert(p.drop_first()[k - 1] == p[k]);
        lemma_resolve_stops_from(child, p.drop_first(), k - 1, depth + 1);
    }
}

/// Where the segment at `k`, which is not the last, names no category of the
/// registry that the segments before it lead to, resolution fails with
/// `InvalidPath` at exactly that position: it goes no deeper than the mismatch.
pub proof fn lemma_resolve_invalid_path(reg: CommandRegistry, p: Seq<Seq<char>>, k: int)
    requires
        0 <= k < p.len() - 1,
        p.len() <= usize::MAX,
        resolvable(reg, p.take(k)),
        forall|j: int|
            0 <= j < category_names(registry_at(reg, p.take(k))).len()
                ==> category_names(registry_at(reg, p.take(k)))[j] != p[k],
    ensures
        resolve_spec(reg, p) == Err::<ApiCommand, ResolveError>(
            ResolveError::InvalidPath { index: k as usize },
        ),
{
    lemma_resolve_stops_from(reg, p, k, 0);
}

} // verus!
