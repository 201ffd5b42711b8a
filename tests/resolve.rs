use dynamic_admin_ops::api::Operation;
use dynamic_admin_ops::commands::create_command_registry;
use dynamic_admin_ops::registry::{
    get_registry_at_path, ApiCommand, Command, CommandCategory, CommandRegistry,
};
use dynamic_admin_ops::resolve::{resolve, ResolveError};

fn path(segments: &[&str]) -> Vec<String> {
    segments.iter().map(|s| s.to_string()).collect()
}

#[test]
fn resolves_get_organization() {
    let root = create_command_registry();
    let cmd = resolve(&root, &path(&["organizations", "get"])).unwrap();
    assert_eq!(cmd.operation, Operation::GetOrganization);
    assert_eq!(cmd.name(), "get");
    assert_eq!(cmd.description(), "Get a specific organization");
    assert!(std::ptr::eq(cmd, &root.categories[0].registry.commands[1]));
}

#[test]
fn unknown_command_in_category_is_no_command_at_path() {
    let root = create_command_registry();
    assert_eq!(
        resolve(&root, &path(&["exports", "update"])).err(),
        Some(ResolveError::NoCommandAtPath)
    );
}

#[test]
fn unknown_category_is_invalid_path() {
    let root = create_command_registry();
    assert_eq!(
        resolve(&root, &path(&["widgets", "list"])).err(),
        Some(ResolveError::InvalidPath { index: 0 })
    );
}

#[test]
fn every_full_path_resolves_to_its_command() {
    let root = create_command_registry();
    let cases = [
        (["organizations", "list"], Operation::ListOrganizations),
        (["organizations", "get"], Operation::GetOrganization),
        (["exports", "list"], Operation::ListExports),
        (["exports", "get"], Operation::GetExport),
        (["exports", "create"], Operation::CreateExport),
        (["users", "list"], Operation::ListUsers),
        (["users", "get"], Operation::GetUser),
    ];
    for (p, op) in cases.iter() {
        let cmd = resolve(&root, &path(p)).unwrap();
        assert_eq!(cmd.operation, *op);
        assert_eq!(cmd.name(), p[1]);
    }
}

#[test]
fn category_as_last_segment_is_no_command_at_path() {
    let root = create_command_registry();
    assert_eq!(
        resolve(&root, &path(&["exports"])).err(),
        Some(ResolveError::NoCommandAtPath)
    );
}

#[test]
fn command_as_intermediate_segment_is_invalid_path() {
    let root = create_command_registry();
    assert_eq!(
        resolve(&root, &path(&["organizations", "list", "more"])).err(),
        Some(ResolveError::InvalidPath { index: 1 })
    );
}

#[test]
fn matching_is_case_sensitive() {
    let root = create_command_registry();
    assert_eq!(
        resolve(&root, &path(&["Exports", "list"])).err(),
        Some(ResolveError::InvalidPath { index: 0 })
    );
}

fn deep_tree() -> CommandRegistry {
    let mut inner = CommandRegistry::new();
    inner.add_command(ApiCommand::new("run", "Run it", Operation::ListUsers));
    let mut middle = CommandRegistry::new();
    middle.add_category(CommandCategory {
        name: "inner".to_string(),
        description: "Inner".to_string(),
        registry: inner,
    });
    middle.add_command(ApiCommand::new("inner", "Same name as a category", Operation::GetUser));
    let mut root = CommandRegistry::new();
    root.add_category(CommandCategory {
        name: "middle".to_string(),
        description: "Middle".to_string(),
        registry: middle,
    });
    root
}

#[test]
fn resolves_three_levels_deep() {
    let root = deep_tree();
    let cmd = resolve(&root, &path(&["middle", "inner", "run"])).unwrap();
    assert_eq!(cmd.operation, Operation::ListUsers);
    assert_eq!(
        resolve(&root, &path(&["middle", "nowhere", "run"])).err(),
        Some(ResolveError::InvalidPath { index: 1 })
    );
}

#[test]
fn last_segment_prefers_command_over_category() {
    let root = deep_tree();
    let cmd = resolve(&root, &path(&["middle", "inner"])).unwrap();
    assert_eq!(cmd.operation, Operation::GetUser);
}

#[test]
fn registry_at_path_walks_and_stops_at_mismatch() {
    let root = create_command_registry();
    let exports = get_registry_at_path(&root, &path(&["exports"]));
    assert_eq!(exports.commands.len(), 3);
    let same = get_registry_at_path(&root, &path(&[]));
    assert_eq!(same.categories.len(), 3);
    let stopped = get_registry_at_path(&root, &path(&["users", "missing"]));
    assert_eq!(stopped.commands[0].operation, Operation::ListUsers);
}

#[test]
fn registry_keeps_insertion_order() {
    let mut r = CommandRegistry::new();
    r.add_command(ApiCommand::new("b", "B", Operation::ListUsers));
    r.add_command(ApiCommand::new("a", "A", Operation::GetUser));
    assert_eq!(r.commands[0].name(), "b");
    assert_eq!(r.commands[1].name(), "a");
    assert_eq!(r.find_command(&"a".to_string()), Some(1));
    assert_eq!(r.find_category(&"a".to_string()), None);
}
