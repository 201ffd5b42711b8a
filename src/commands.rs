use vstd::prelude::*;

use crate::api::Operation;
use crate::registry::{
    ApiCommand, CommandCategory, CommandRegistry, category_names, command_names, level_wf,
};

verus! {

/// `reg` is a last level of the tree: no category, and these commands in order.
pub open spec fn is_leaf_level(reg: CommandRegistry, names: Seq<Seq<char>>, ops: Seq<Operation>) -> bool {
    &&& reg.categories@.len() == 0
    &&& command_names(reg) == names
    &&& reg.commands@.map_values(|c: ApiCommand| c.operation) == ops
}

fn leaf_category(name: &str, description: &str, registry: CommandRegistry) -> (r: CommandCategory)
    ensures
        r.name@ == name@,
        r.description@ == description@,
        r.registry == registry,
{
    CommandCategory {
        name: String::from_str(name),
        description: String::from_str(description),
        registry,
    }
}

/// The tree of every command the client offers: the categories `organizations`
/// (`list`, `get`), `exports` (`list`, `get`, `create`) and `users` (`list`,
/// `get`), and no command at the root.
pub fn create_command_registry() -> (r: CommandRegistry)
    ensures
        level_wf(r),
        forall|i: int| 0 <= i < 3 ==> level_wf(#[trigger] r.categories@[i].registry),
        r.commands@.len() == 0,
        category_names(r) == seq!["organizations"@, "exports"@, "users"@],
        is_leaf_level(
            r.categories@[0].registry,
            seq!["list"@, "get"@],
            seq![Operation::ListOrganizations, Operation::GetOrganization],
        ),
        is_leaf_level(
            r.categories@[1].registry,
            seq!["list"@, "get"@, "create"@],
            seq![Operation::ListExports, Operation::GetExport, Operation::CreateExport],
        ),
        is_leaf_level(
            r.categories@[2].registry,
            seq!["list"@, "get"@],
            seq![Operation::ListUsers, Operation::GetUser],
        ),
{
    proof {
        reveal_strlit("organizations");
        reveal_strlit("exports");
        reveal_strlit("users");
        reveal_strlit("list");
        reveal_strlit("get");
        reveal_strlit("create");
        assert("organizations"@.len() == 13);
        assert("exports"@.len() == 7);
        assert("users"@.len() == 5);
        assert("list"@.len() == 4);
        assert("get"@.len() == 3);
        assert("create"@.len() == 6);
    }
    let mut registry = CommandRegistry::new();

    let mut organizations = CommandRegistry::new();
    organizations.add_command(
        ApiCommand::new("list", "List all organizations", Operation::ListOrganizations),
    );
    organizations.add_command(
        ApiCommand::new("get", "Get a specific organization", Operation::GetOrganization),
    );
    assert(command_names(organizations) =~= seq!["list"@, "get"@]);
    assert(organizations.commands@.map_values(|c: ApiCommand| c.operation) =~= seq![
        Operation::ListOrganizations,
        Operation::GetOrganization,
    ]);
    assert(level_wf(organizations));
    registry.add_category(
        leaf_category("organizations", "Organization related commands", organizations),
    );

    let mut exports = CommandRegistry::new();
    exports.add_command(ApiCommand::new("list", "List all exports", Operation::ListExports));
    exports.add_command(ApiCommand::new("get", "Get a specific export", Operation::GetExport));
    exports.add_command(ApiCommand::new("create", "Create a new export", Operation::CreateExport));
    assert(command_names(exports) =~= seq!["list"@, "get"@, "create"@]);
    assert(exports.commands@.map_values(|c: ApiCommand| c.operation) =~= seq![
        Operation::ListExports,
        Operation::GetExport,
        Operation::CreateExport,
    ]);
    assert(level_wf(exports));
    registry.add_category(leaf_category("exports", "Export related commands", exports));

    let mut users = CommandRegistry::new();
    users.add_command(ApiCommand::new("list", "List all users", Operation::ListUsers));
    users.add_command(ApiCommand::new("get", "Get a specific user", Operation::GetUser));
    assert(command_names(users) =~= seq!["list"@, "get"@]);
    assert(users.commands@.map_values(|c: ApiCommand| c.operation) =~= seq![
        Operation::ListUsers,
        Operation::GetUser,
    ]);
    assert(level_wf(users));
    registry.add_category(leaf_category("users", "User related commands", users));

    assert(category_names(registry) =~= seq!["organizations"@, "exports"@, "users"@]);
    assert(level_wf(registry));
    assert(forall|i: int| 0 <= i < 3 ==> level_wf(#[trigger] registry.categories@[i].registry));
    registry
}

} // verus!
