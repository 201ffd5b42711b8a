use vstd::prelude::*;

use crate::registry::{
    CommandRegistry, category_names, command_names, first_index, get_registry_at_path,
    lemma_first_index_some, registry_at, resolvable, views,
};

verus! {

/// One choice of the interactive menu.
#[derive(Clone, Copy, Debug, PartialEq, Eq, Structural)]
pub enum MenuEntry {
    /// Go one level up.
    Back,
    /// Leave the menu.
    Exit,
    /// Descend into the category at this position.
    Category(usize),
    /// Run the command at this position.
    Command(usize),
}

/// The menu of `reg`: `Back` unless at the root, `Exit`, then every category and
/// every command, each in insertion order.
pub open spec fn menu_spec(reg: CommandRegistry, at_root: bool) -> Seq<MenuEntry> {
    (if at_root {
        Seq::<MenuEntry>::empty()
    } else {
        seq![MenuEntry::Back]
    }) + seq![MenuEntry::Exit] + Seq::new(
        reg.categories@.len(),
        |i: int| MenuEntry::Category(i as usize),
    ) + Seq::new(reg.commands@.len(), |i: int| MenuEntry::Command(i as usize))
}

/// The text shown for a menu entry of `reg`.
pub open spec fn label_of(reg: CommandRegistry, e: MenuEntry) -> Seq<char> {
    match e {
        MenuEntry::Back => "[Back]"@,
        MenuEntry::Exit => "[Exit]"@,
        MenuEntry::Category(i) => reg.categories@[i as int].name@,
        MenuEntry::Command(i) => reg.commands@[i as int].name@,
    }
}

/// The texts of the menu of `reg`, in the order shown.
pub open spec fn menu_labels_spec(reg: CommandRegistry, at_root: bool) -> Seq<Seq<char>> {
    menu_spec(reg, at_root).map_values(|e: MenuEntry| label_of(reg, e))
}

/// A registry with no category and exactly one command runs that command at once.
pub open spec fn auto_executes(reg: CommandRegistry) -> bool {
    reg.categories@.len() == 0 && reg.commands@.len() == 1
}

/// The entries of the menu of `reg`.
pub fn menu_entries(reg: &CommandRegistry, at_root: bool) -> (r: Vec<MenuEntry>)
    ensures
        r@ == menu_spec(*reg, at_root),
{
    let mut r: Vec<MenuEntry> = Vec::new();
    if !at_root {
        r.push(MenuEntry::Back);
    }
    r.push(MenuEntry::Exit);
    let ghost head = r@;
    let mut i: usize = 0;
    while i < reg.categories.len()
        invariant
            i <= reg.categories@.len(),
            r@ == head + Seq::new(i as nat, |j: int| MenuEntry::Category(j as usize)),
        decreases reg.categories@.len() - i,
    {
        r.push(MenuEntry::Category(i));
        i = i + 1;
        assert(r@ =~= head + Seq::new(i as nat, |j: int| MenuEntry::Category(j as usize)));
    }
    let ghost mid = r@;
    let mut k: usize = 0;
    while k < reg.commands.len()
        invariant
            k <= reg.commands@.len(),
            r@ == mid + Seq::new(k as nat, |j: int| MenuEntry::Command(j as usize)),
        decreases reg.commands@.len() - k,
    {
        r.push(MenuEntry::Command(k));
        k = k + 1;
        assert(r@ =~= mid + Seq::new(k as nat, |j: int| MenuEntry::Command(j as usize)));
    }
    assert(r@ =~= menu_spec(*reg, at_root));
    r
}

/// The text shown for one entry of the menu of `reg`.
pub fn entry_label(reg: &CommandRegistry, e: MenuEntry) -> (r: String)
    requires
        match e {
            MenuEntry::Category(i) => i < reg.categories@.len(),
            MenuEntry::Command(i) => i < reg.commands@.len(),
            _ => true,
        },
    ensures
        r@ == label_of(*reg, e),
{
    match e {
        MenuEntry::Back => String::from_str("[Back]"),
        MenuEntry::Exit => String::from_str("[Exit]"),
        MenuEntry::Category(i) => reg.categories[i].name.clone(),
        MenuEntry::Command(i) => reg.commands[i].name.clone(),
    }
}

/// The texts of the menu of `reg`, in the order shown.
pub fn menu_labels(reg: &CommandRegistry, at_root: bool) -> (r: Vec<String>)
    ensures
        views(r@) == menu_labels_spec(*reg, at_root),
{
    let entries = menu_entries(reg, at_root);
    let mut r: Vec<String> = Vec::new();
    let mut i: usize = 0;
    while i < entries.len()
        invariant
            i <= entries@.len(),
            entries@ == menu_spec(*reg, at_root),
            views(r@) == menu_labels_spec(*reg, at_root).take(i as int),
        decreases entries@.len() - i,
    {
        let label = entry_label(reg, entries[i]);
        let ghost lv = label@;
        let ghost before = r@;
        assert(menu_labels_spec(*reg, at_root)[i as int] == lv);
        r.push(label);
        assert(views(r@) =~= views(before).push(lv));
        i = i + 1;
        assert(views(r@) =~= menu_labels_spec(*reg, at_root).take(i as int));
    }
    assert(menu_labels_spec(*reg, at_root).take(i as int) =~= menu_labels_spec(*reg, at_root));
    r
}

/// Whether `reg` runs its single command without showing a menu.
pub fn should_auto_execute(reg: &CommandRegistry) -> (r: bool)
    ensures
        r == auto_executes(*reg),
{
    reg.categories.len() == 0 && reg.commands.len() == 1
}

/// The menu shows, after its reserved entries, the categories and then the
/// commands of the registry, each in insertion order, whatever it holds.
pub proof fn lemma_menu_order(reg: CommandRegistry, at_root: bool)
    ensures
        at_root ==> menu_labels_spec(reg, at_root).take(1) == seq!["[Exit]"@],
        !at_root ==> menu_labels_spec(reg, at_root).take(2) == seq!["[Back]"@, "[Exit]"@],
        menu_labels_spec(reg, at_root).skip(if at_root { 1 } else { 2 }) == category_names(reg)
            + command_names(reg),
{
    let labels = menu_labels_spec(reg, at_root);
    let reserved: int = if at_root { 1 } else { 2 };
    if at_root {
        assert(labels.take(1) =~= seq!["[Exit]"@]);
    } else {
        assert(labels.take(2) =~= seq!["[Back]"@, "[Exit]"@]);
    }
    let m = menu_spec(reg, at_root);
    let nc = reg.categories@.len() as int;
    assert(reg.categories.len() == nc);
    assert(reg.commands.len() == reg.commands@.len());
    let both = category_names(reg) + command_names(reg);
    assert(labels.len() == reserved + both.len());
    assert forall|j: int| 0 <= j < both.len() implies #[trigger] labels.skip(reserved)[j]
        == both[j] by {
        assert(labels.skip(reserved)[j] == label_of(reg, m[reserved + j]));
        if j < nc {
            assert(m[reserved + j] == MenuEntry::Category(j as usize));
        } else {
            assert(m[reserved + j] == MenuEntry::Command((j - nc) as usize));
        }
    }
    assert(labels.skip(reserved) =~= category_names(reg) + command_names(reg));
}

/// What the navigator asks for next.
pub enum Prompt {
    /// Run the only command of the current registry; nothing is shown.
    AutoExecute,
    /// Show these entries and wait for a choice.
    Choose(Vec<MenuEntry>),
}

/// What a choice made of the navigator.
#[derive(Clone, Copy, Debug, PartialEq, Eq, Structural)]
pub enum Step {
    /// The position in the tree changed; show the menu again.
    Moved,
    /// The user left the menu.
    Exit,
    /// Run the command at this position of the current registry, then show the
    /// menu again.
    Execute(usize),
}

/// The interactive walk through the tree: the names of the categories entered
/// from the root. The registry shown is always found again from the root.
pub struct Navigator {
    pub path: Vec<String>,
}

pub proof fn lemma_resolvable_prefix(reg: CommandRegistry, p: Seq<Seq<char>>)
    requires
        p.len() >= 1,
        resolvable(reg, p),
    ensures
        resolvable(reg, p.drop_last()),
    decreases p.len(),
{
    if p.len() > 1 {
        let i = first_index(category_names(reg), p[0]).unwrap();
        assert(p.drop_last()[0] == p[0]);
        assert(p.drop_last().drop_first() =~= p.drop_first().drop_last());
        lemma_resolvable_prefix(reg.categories@[i].registry, p.drop_first());
    } else {
        assert(p.drop_last() =~= Seq::<Seq<char>>::empty());
    }
}

pub proof fn lemma_resolvable_push(reg: CommandRegistry, p: Seq<Seq<char>>, n: Seq<char>)
    requires
        resolvable(reg, p),
        first_index(category_names(registry_at(reg, p)), n) is Some,
    ensures
        resolvable(reg, p.push(n)),
        registry_at(reg, p.push(n)) == registry_at(reg, p).categories@[first_index(
            category_names(registry_at(reg, p)),
            n,
        ).unwrap()].registry,
    decreases p.len(),
{
    if p.len() == 0 {
        assert(registry_at(reg, p) == reg);
        assert(p.push(n).drop_first() =~= Seq::<Seq<char>>::empty());
        assert(p.push(n)[0] == n);
        let i = first_index(category_names(reg), n).unwrap();
        assert(registry_at(reg.categories@[i].registry, p.push(n).drop_first())
            == reg.categories@[i].registry);
        assert(resolvable(reg.categories@[i].registry, p.push(n).drop_first()));
    } else {
        let i = first_index(category_names(reg), p[0]).unwrap();
        let child = reg.categories@[i].registry;
        assert(p.push(n)[0] == p[0]);
        assert(p.push(n).drop_first() =~= p.drop_first().push(n));
        assert(registry_at(reg, p) == registry_at(child, p.drop_first()));
        lemma_resolvable_push(child, p.drop_first(), n);
    }
}

impl Navigator {
    /// The well-formed states: every name on the path was entered as a category.
    pub open spec fn wf(&self, root: CommandRegistry) -> bool {
        resolvable(root, views(self.path@))
    }

    /// The registry shown at this state.
    pub open spec fn current_spec(&self, root: CommandRegistry) -> CommandRegistry {
        registry_at(root, views(self.path@))
    }

    pub fn new() -> (r: Navigator)
        ensures
            r.path@.len() == 0,
    {
        Navigator { path: Vec::new() }
    }

    /// The registry shown at this state, found by walking the path from the root.
    pub fn current<'a>(&self, root: &'a CommandRegistry) -> (r: &'a CommandRegistry)
        ensures
            *r == self.current_spec(*root),
    {
        get_registry_at_path(root, self.path.as_slice())
    }

    /// What to do next: run the single command of a registry that has no
    /// category and exactly one command, else show its menu.
    pub fn prompt(&self, root: &CommandRegistry) -> (r: Prompt)
        ensures
            (r is AutoExecute) == auto_executes(self.current_spec(*root)),
            match r {
                Prompt::Choose(v) => v@ == menu_spec(
                    self.current_spec(*root),
                    self.path@.len() == 0,
                ),
                Prompt::AutoExecute => true,
            },
    {
        let current = self.current(root);
        if should_auto_execute(current) {
            Prompt::AutoExecute
        } else {
            Prompt::Choose(menu_entries(current, self.path.len() == 0))
        }
    }

    /// The texts of the menu shown at this state.
    pub fn labels(&self, root: &CommandRegistry) -> (r: Vec<String>)
        ensures
            views(r@) == menu_labels_spec(self.current_spec(*root), self.path@.len() == 0),
    {
        menu_labels(self.current(root), self.path.len() == 0)
    }

    /// Applies the menu entry at position `selection`. `Back` drops the last name
    /// of the path, a category appends its name, `Exit` and a command leave the
    /// path as it is.
    pub fn select(&mut self, root: &CommandRegistry, selection: usize) -> (r: Step)
        requires
            old(self).wf(*root),
            selection < menu_spec(old(self).current_spec(*root), old(self).path@.len() == 0).len(),
        ensures
            final(self).wf(*root),
            ({
                let cur = old(self).current_spec(*root);
                match menu_spec(cur, old(self).path@.len() == 0)[selection as int] {
                    MenuEntry::Back => r == Step::Moved && final(self).path@ == old(
                        self,
                    ).path@.drop_last(),
                    MenuEntry::Exit => r == Step::Exit && final(self).path@ == old(self).path@,
                    MenuEntry::Category(i) => r == Step::Moved && views(final(self).path@)
                        == views(old(self).path@).push(cur.categories@[i as int].name@) && (
                    first_index(category_names(cur), cur.categories@[i as int].name@) == Some(
                        i as int,
                    ) ==> final(self).current_spec(*root) == cur.categories@[i as int].registry),
                    MenuEntry::Command(i) => r == Step::Execute(i) && final(self).path@ == old(
                        self,
                    ).path@,
                }
            }),
    {
        let ghost cur = self.current_spec(*root);
        let ghost p = views(self.path@);
        let current = self.current(root);
        let entries = menu_entries(current, self.path.len() == 0);
        match entries[selection] {
            MenuEntry::Back => {
                self.path.pop();
                proof {
                    lemma_resolvable_prefix(*root, p);
                    assert(views(self.path@) =~= p.drop_last());
                }
                Step::Moved
            },
            MenuEntry::Exit => Step::Exit,
            MenuEntry::Category(i) => {
                let name = current.categories[i].name.clone();
                self.path.push(name);
                proof {
                    lemma_first_index_some(category_names(cur), cur.categories@[i as int].name@, i as int);
                    lemma_resolvable_push(*root, p, cur.categories@[i as int].name@);
                    assert(views(self.path@) =~= p.push(cur.categories@[i as int].name@));
                }
                Step::Moved
            },
            MenuEntry::Command(i) => Step::Execute(i),
        }
    }
}

} // verus!
