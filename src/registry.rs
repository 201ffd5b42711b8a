use vstd::prelude::*;

use crate::api::Operation;

verus! {

/// The names of a sequence of strings, as character sequences.
pub open spec fn views(s: Seq<String>) -> Seq<Seq<char>> {
    s.map_values(|x: String| x@)
}

/// `i` is the first position of `x` in `s`.
pub open spec fn is_first_match(s: Seq<Seq<char>>, x: Seq<char>, i: int) -> bool {
    &&& 0 <= i < s.len()
    &&& s[i] == x
    &&& forall|j: int| 0 <= j < i ==> s[j] != x
}

/// The first position of `x` in `s`, if any.
pub open spec fn first_index(s: Seq<Seq<char>>, x: Seq<char>) -> Option<int> {
    if exists|i: int| is_first_match(s, x, i) {
        Some(choose|i: int| is_first_match(s, x, i))
    } else {
        None
    }
}

pub proof fn lemma_first_index_is(s: Seq<Seq<char>>, x: Seq<char>, i: int)
    requires
        is_first_match(s, x, i),
    ensures
        first_index(s, x) == Some(i),
{
    let k = choose|k: int| is_first_match(s, x, k);
    assert(is_first_match(s, x, k));
    if k < i {
        assert(s[k] != x);
    } else if k > i {
        assert(s[i] != x);
    }
}

pub proof fn lemma_first_index_some(s: Seq<Seq<char>>, x: Seq<char>, k: int)
    requires
        0 <= k < s.len(),
        s[k] == x,
    ensures
        first_index(s, x) is Some,
    decreases k,
{
    if forall|j: int| 0 <= j < k ==> s[j] != x {
        lemma_first_index_is(s, x, k);
    } else {
        let j = choose|j: int| 0 <= j < k && s[j] == x;
        lemma_first_index_some(s, x, j);
    }
}

pub proof fn lemma_first_index_none(s: Seq<Seq<char>>, x: Seq<char>)
    requires
        forall|j: int| 0 <= j < s.len() ==> s[j] != x,
    ensures
        first_index(s, x) is None,
{
}

/// A command of the tree: a name unique among its siblings, one line of help, and
/// the remote operation it performs.
pub struct ApiCommand {
    pub name: String,
    pub description: String,
    pub operation: Operation,
}

/// What every command offers to the two ways of driving the tree.
pub trait Command {
    spec fn spec_name(&self) -> Seq<char>;

    spec fn spec_description(&self) -> Seq<char>;

    fn name(&self) -> (r: &str)
        ensures
            r@ == self.spec_name(),
    ;

    fn description(&self) -> (r: &str)
        ensures
            r@ == self.spec_description(),
    ;
}

impl ApiCommand {
    pub fn new(name: &str, description: &str, operation: Operation) -> (r: ApiCommand)
        ensures
            r.name@ == name@,
            r.description@ == description@,
            r.operation == operation,
    {
        ApiCommand { name: name.to_owned(), description: description.to_owned(), operation }
    }
}

impl Command for ApiCommand {
    open spec fn spec_name(&self) -> Seq<char> {
        self.name@
    }

    open spec fn spec_description(&self) -> Seq<char> {
        self.description@
    }

    fn name(&self) -> (r: &str) {
        self.name.as_str()
    }

    fn description(&self) -> (r: &str) {
        self.description.as_str()
    }
}

/// One level of the command tree: its commands and its named sub-trees, each
/// kept in insertion order, which is also the order in which they are shown.
pub struct CommandRegistry {
    pub commands: Vec<ApiCommand>,
    pub categories: Vec<CommandCategory>,
}

/// A named group of commands, owning the registry one level below.
pub struct CommandCategory {
    pub name: String,
    pub description: String,
    pub registry: CommandRegistry,
}

pub open spec fn category_names(reg: CommandRegistry) -> Seq<Seq<char>> {
    reg.categories@.map_values(|c: CommandCategory| c.name@)
}

pub open spec fn command_names(reg: CommandRegistry) -> Seq<Seq<char>> {
    reg.commands@.map_values(|c: ApiCommand| c.name@)
}

/// No name occurs twice in `s`.
pub open spec fn distinct(s: Seq<Seq<char>>) -> bool {
    forall|i: int, j: int| 0 <= i < j < s.len() ==> s[i] != s[j]
}

/// The invariant of one level of the tree: category names are unique, command
/// names are unique, and no name labels both a category and a command.
pub open spec fn level_wf(reg: CommandRegistry) -> bool {
    &&& distinct(category_names(reg))
    &&& distinct(command_names(reg))
    &&& forall|i: int, j: int|
        0 <= i < reg.categories@.len() && 0 <= j < reg.commands@.len() ==> #[trigger] category_names(
            reg,
        )[i] != #[trigger] command_names(reg)[j]
}

/// On a level that keeps its invariant, the name of the category at `i` leads
/// to that very category.
pub proof fn lemma_wf_category_lookup(reg: CommandRegistry, i: int)
    requires
        level_wf(reg),
        0 <= i < reg.categories@.len(),
    ensures
        first_index(category_names(reg), reg.categories@[i].name@) == Some(i),
{
    assert forall|j: int| 0 <= j < i implies category_names(reg)[j] != category_names(reg)[i] by {}
    lemma_first_index_is(category_names(reg), reg.categories@[i].name@, i);
}

/// On a level that keeps its invariant, the name of the command at `i` leads to
/// that very command.
pub proof fn lemma_wf_command_lookup(reg: CommandRegistry, i: int)
    requires
        level_wf(reg),
        0 <= i < reg.commands@.len(),
    ensures
        first_index(command_names(reg), reg.commands@[i].name@) == Some(i),
{
    assert forall|j: int| 0 <= j < i implies command_names(reg)[j] != command_names(reg)[i] by {}
    lemma_first_index_is(command_names(reg), reg.commands@[i].name@, i);
}

/// The registry reached by walking `path` from `reg`, descending into the first
/// category of each name; the walk stops where a segment names no category.
pub open spec fn registry_at(reg: CommandRegistry, path: Seq<Seq<char>>) -> CommandRegistry
    decreases path.len(),
{
    if path.len() == 0 {
        reg
    } else {
        match first_index(category_names(reg), path[0]) {
            Some(i) => registry_at(reg.categories@[i].registry, path.drop_first()),
            None => reg,
        }
    }
}

/// Every segment of `path` names a category along the walk from `reg`.
pub open spec fn resolvable(reg: CommandRegistry, path: Seq<Seq<char>>) -> bool
    decreases path.len(),
{
    if path.len() == 0 {
        true
    } else {
        match first_index(category_names(reg), path[0]) {
            Some(i) => resolvable(reg.categories@[i].registry, path.drop_first()),
            None => false,
        }
    }
}

impl CommandRegistry {
    pub fn new() -> (r: CommandRegistry)
        ensures
            r.commands@.len() == 0,
            r.categories@.len() == 0,
    {
        CommandRegistry { commands: Vec::new(), categories: Vec::new() }
    }

    pub fn add_command(&mut self, command: ApiCommand)
        ensures
            final(self).commands@ == old(self).commands@.push(command),
            final(self).categories@ == old(self).categories@,
    {
        self.commands.push(command);
    }

    pub fn add_category(&mut self, category: CommandCategory)
        ensures
            final(self).categories@ == old(self).categories@.push(category),
            final(self).commands@ == old(self).commands@,
    {
        self.categories.push(category);
    }

    /// The position of the first category called `name`.
    pub fn find_category(&self, name: &String) -> (r: Option<usize>)
        ensures
            match r {
                Some(i) => first_index(category_names(*self), name@) == Some(i as int),
                None => first_index(category_names(*self), name@) is None,
            },
    {
        let mut i: usize = 0;
        while i < self.categories.len()
            invariant
                i <= self.categories@.len(),
                forall|j: int| 0 <= j < i ==> category_names(*self)[j] != name@,
            decreases self.categories@.len() - i,
        {
            if self.categories[i].name == *name {
                proof {
                    lemma_first_index_is(category_names(*self), name@, i as int);
                }
                return Some(i);
            }
            i = i + 1;
        }
        None
    }

    /// The position of the first command called `name`.
    pub fn find_command(&self, name: &String) -> (r: Option<usize>)
        ensures
            match r {
                Some(i) => first_index(command_names(*self), name@) == Some(i as int),
                None => first_index(command_names(*self), name@) is None,
            },
    {
        let mut i: usize = 0;
        while i < self.commands.len()
            invariant
                i <= self.commands@.len(),
                forall|j: int| 0 <= j < i ==> command_names(*self)[j] != name@,
            decreases self.commands@.len() - i,
        {
            if self.commands[i].name == *name {
                proof {
                    lemma_first_index_is(command_names(*self), name@, i as int);
                }
                return Some(i);
            }
            i = i + 1;
        }
        None
    }
}

/// The registry reached from `registry` along `path`; where a segment names no
/// category the walk stops at the registry it has reached.
pub fn get_registry_at_path<'a>(registry: &'a CommandRegistry, path: &[String]) -> (r:
    &'a CommandRegistry)
    ensures
        *r == registry_at(*registry, views(path@)),
{
    let ghost p = views(path@);
    let mut current = registry;
    let mut i: usize = 0;
    assert(p.subrange(0, p.len() as int) =~= p);
    while i < path.len()
        invariant
            i <= path@.len(),
            p == views(path@),
            registry_at(*registry, p) == registry_at(*current, p.subrange(i as int, p.len() as int)),
        decreases path@.len() - i,
    {
        let ghost rest = p.subrange(i as int, p.len() as int);
        assert(rest[0] == path@[i as int]@);
        assert(rest.drop_first() =~= p.subrange(i + 1, p.len() as int));
        match current.find_category(&path[i]) {
            Some(k) => {
                current = &current.categories[k].registry;
            },
            None => {
                return current;
            },
        }
        i = i + 1;
    }
    assert(p.subrange(i as int, p.len() as int) =~= Seq::<Seq<char>>::empty());
    current
}

} // verus!
