use yuuka::tools::registry::{check_new_tool_name, first_wins, resolve, Declared};

fn decl(name: &str, provider: usize) -> Declared {
    Declared { name: name.to_owned(), provider }
}

#[test]
fn native_provider_detects_duplicate_registration() {
    let mut names: Vec<String> = Vec::new();
    assert!(check_new_tool_name(&names, "native:add_todo").is_ok());
    names.push("native:add_todo".to_owned());
    let dup = check_new_tool_name(&names, "native:add_todo");
    assert_eq!(dup.unwrap_err(), "ツール名が重複しています: native:add_todo");
    assert_eq!(names.len(), 1);
}

#[test]
fn cross_provider_name_collision_first_wins() {
    let ds = vec![decl("shared", 0), decl("a", 0), decl("shared", 1), decl("b", 1)];
    assert_eq!(first_wins(&ds), vec![0, 1, 3]);
    assert_eq!(resolve(&ds, "shared"), Some(0));
    assert_eq!(resolve(&ds, "b"), Some(1));
}

#[test]
fn native_provider_unknown_tool_errors() {
    let ds = vec![decl("a", 0)];
    assert_eq!(resolve(&ds, "nope"), None);
}

#[test]
fn turn_provider_cannot_take_over_a_builtin() {
    let mut ds = vec![decl("add_todo", 0), decl("list_todos", 0)];
    ds.push(decl("add_todo", 2));
    ds.push(decl("mcp_search", 2));
    assert_eq!(resolve(&ds, "add_todo"), Some(0));
    assert_eq!(resolve(&ds, "mcp_search"), Some(2));
    assert_eq!(first_wins(&ds), vec![0, 1, 3]);
}

#[test]
fn empty_registry_has_nothing() {
    let ds: Vec<Declared> = Vec::new();
    assert!(first_wins(&ds).is_empty());
    assert_eq!(resolve(&ds, "x"), None);
}
