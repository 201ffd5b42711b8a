use dynamic_admin_ops::api::Operation;
use dynamic_admin_ops::commands::create_command_registry;
use dynamic_admin_ops::navigator::{
    menu_entries, menu_labels, should_auto_execute, MenuEntry, Navigator, Prompt, Step,
};
use dynamic_admin_ops::registry::{ApiCommand, CommandCategory, CommandRegistry};

#[test]
fn root_menu_has_exit_and_categories_without_back() {
    let root = create_command_registry();
    let nav = Navigator::new();
    match nav.prompt(&root) {
        Prompt::Choose(entries) => assert_eq!(
            entries,
            vec![
                MenuEntry::Exit,
                MenuEntry::Category(0),
                MenuEntry::Category(1),
                MenuEntry::Category(2)
            ]
        ),
        Prompt::AutoExecute => panic!("root must not run a command by itself"),
    }
    assert_eq!(nav.labels(&root), vec!["[Exit]", "organizations", "exports", "users"]);
}

#[test]
fn exports_menu_has_back_exit_then_commands() {
    let root = create_command_registry();
    let mut nav = Navigator::new();
    assert_eq!(nav.select(&root, 2), Step::Moved);
    assert_eq!(nav.path, vec!["exports".to_string()]);
    assert_eq!(nav.labels(&root), vec!["[Back]", "[Exit]", "list", "get", "create"]);
    assert_eq!(nav.current(&root).commands[2].operation, Operation::CreateExport);
}

#[test]
fn selecting_a_command_executes_and_stays() {
    let root = create_command_registry();
    let mut nav = Navigator::new();
    nav.select(&root, 2);
    assert_eq!(nav.select(&root, 3), Step::Execute(1));
    assert_eq!(nav.path, vec!["exports".to_string()]);
}

#[test]
fn back_returns_to_root_and_exit_leaves() {
    let root = create_command_registry();
    let mut nav = Navigator::new();
    nav.select(&root, 3);
    assert_eq!(nav.select(&root, 0), Step::Moved);
    assert!(nav.path.is_empty());
    assert_eq!(nav.select(&root, 0), Step::Exit);
    nav.select(&root, 1);
    assert_eq!(nav.select(&root, 1), Step::Exit);
    assert_eq!(nav.path, vec!["organizations".to_string()]);
}

fn single(name: &str) -> CommandRegistry {
    let mut r = CommandRegistry::new();
    r.add_command(ApiCommand::new(name, "Only one", Operation::ListOrganizations));
    r
}

#[test]
fn single_command_without_categories_auto_executes() {
    let mut root = CommandRegistry::new();
    root.add_category(CommandCategory {
        name: "solo".to_string(),
        description: "One command".to_string(),
        registry: single("go"),
    });
    let mut nav = Navigator::new();
    assert!(matches!(nav.prompt(&root), Prompt::Choose(_)));
    nav.select(&root, 1);
    assert!(matches!(nav.prompt(&root), Prompt::AutoExecute));
    assert!(should_auto_execute(&single("x")));
}

#[test]
fn auto_execute_needs_no_category_and_one_command() {
    assert!(!should_auto_execute(&CommandRegistry::new()));
    let mut two = single("a");
    two.add_command(ApiCommand::new("b", "B", Operation::GetUser));
    assert!(!should_auto_execute(&two));
    let mut with_category = single("a");
    with_category.add_category(CommandCategory {
        name: "c".to_string(),
        description: "C".to_string(),
        registry: CommandRegistry::new(),
    });
    assert!(!should_auto_execute(&with_category));
}

#[test]
fn menu_lists_categories_before_commands_in_insertion_order() {
    let mut r = CommandRegistry::new();
    r.add_command(ApiCommand::new("zeta", "Z", Operation::GetUser));
    r.add_category(CommandCategory {
        name: "beta".to_string(),
        description: "B".to_string(),
        registry: CommandRegistry::new(),
    });
    r.add_command(ApiCommand::new("alpha", "A", Operation::ListUsers));
    r.add_category(CommandCategory {
        name: "gamma".to_string(),
        description: "G".to_string(),
        registry: CommandRegistry::new(),
    });
    assert_eq!(menu_labels(&r, true), vec!["[Exit]", "beta", "gamma", "zeta", "alpha"]);
    assert_eq!(
        menu_labels(&r, false),
        vec!["[Back]", "[Exit]", "beta", "gamma", "zeta", "alpha"]
    );
    assert_eq!(
        menu_entries(&r, false),
        vec![
            MenuEntry::Back,
            MenuEntry::Exit,
            MenuEntry::Category(0),
            MenuEntry::Category(1),
            MenuEntry::Command(0),
            MenuEntry::Command(1)
        ]
    );
}
