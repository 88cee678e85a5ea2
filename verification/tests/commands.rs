use todocli::commands::{
    AddCommand, CommandResult, CompleteCommand, DeleteCommand, ListCommand, VersionCommand,
};
use todocli::store::Store;

#[test]
fn test_add_command_creation() {
    let cmd = AddCommand::new("Test todo".to_string(), Some("high".to_string()));
    assert_eq!(cmd.text, "Test todo");
    assert_eq!(cmd.priority, "high");
}

#[test]
fn test_add_command_default_priority() {
    let cmd = AddCommand::new("Test todo".to_string(), None);
    assert_eq!(cmd.text, "Test todo");
    assert_eq!(cmd.priority, "medium");
}

#[test]
fn add_test_command_result() {
    let result = CommandResult::new(true, "Success".to_string());
    assert!(result.is_success());
    assert_eq!(result.message, "Success");

    let result = CommandResult::new(false, "Error".to_string());
    assert!(!result.is_success());
    assert_eq!(result.message, "Error");
}

#[test]
fn test_complete_command_creation() {
    let cmd = CompleteCommand::new(42);
    assert_eq!(cmd.id, 42);
}

#[test]
fn complete_test_command_result() {
    let result = CommandResult::new(true, "Success".to_string());
    assert!(result.is_success());
    assert_eq!(result.message, "Success");

    let result = CommandResult::new(false, "Error".to_string());
    assert!(!result.is_success());
    assert_eq!(result.message, "Error");
}

#[test]
fn test_delete_command_creation() {
    let cmd = DeleteCommand::new(42);
    assert_eq!(cmd.id, 42);
}

#[test]
fn delete_test_command_result() {
    let result = CommandResult::new(true, "Success".to_string());
    assert!(result.is_success());
    assert_eq!(result.message, "Success");

    let result = CommandResult::new(false, "Error".to_string());
    assert!(!result.is_success());
    assert_eq!(result.message, "Error");
}

#[test]
fn test_list_command_creation() {
    let cmd = ListCommand::new(true, Some("json".to_string()));
    assert!(cmd.show_completed);
    assert_eq!(cmd.format, "json");
}

#[test]
fn test_list_command_defaults() {
    let cmd = ListCommand::new(false, None);
    assert!(!cmd.show_completed);
    assert_eq!(cmd.format, "table");
}

#[test]
fn list_test_command_result() {
    let result = CommandResult::new(true, "Success".to_string());
    assert!(result.is_success());
    assert_eq!(result.message, "Success");
}

#[test]
fn test_add_command_reports_id() {
    let mut st = Store::new();
    let cmd = AddCommand::new("Buy milk".to_string(), Some("high".to_string()));
    let r = cmd.execute(&mut st, "2024-01-01 00:00:00");
    assert!(r.is_success());
    assert_eq!(r.message, "Todo added with ID 1");

    let cmd2 = AddCommand::new("Write report".to_string(), None);
    let r2 = cmd2.execute(&mut st, "2024-01-01 00:00:01");
    assert!(r2.success);
    assert_eq!(r2.message, "Todo added with ID 2");
}

#[test]
fn test_complete_command_already_completed() {
    let mut st = Store::new();
    let id = st.add_todo("task", "medium", "2024-01-01 00:00:00");
    let todo_before = st.find_todo(id).unwrap();
    assert_eq!(todo_before.completed, 0);
    assert!(todo_before.completed_at.is_none());

    let cmd = CompleteCommand::new(id);
    let first = cmd.execute(&mut st, "2024-01-01 00:00:01");
    assert!(first.is_success());
    assert_eq!(first.message, "Todo completed");
    let after = st.find_todo(id).unwrap();
    assert_eq!(after.completed, 1);
    assert_eq!(after.completed_at.as_deref(), Some("2024-01-01 00:00:01"));

    let second = cmd.execute(&mut st, "2024-01-01 00:00:02");
    assert!(!second.is_success());
    assert_eq!(second.message, "Already completed");
    // no storage mutation surprise: the first timestamp stands
    let unchanged = st.find_todo(id).unwrap();
    assert_eq!(unchanged.completed_at.as_deref(), Some("2024-01-01 00:00:01"));
}

#[test]
fn test_complete_command_not_found_on_empty_store() {
    let mut st = Store::new();
    let cmd = CompleteCommand::new(999);
    let r = cmd.execute(&mut st, "2024-01-01 00:00:00");
    assert!(!r.is_success());
    assert_eq!(r.message, "Todo not found");
    // no row created
    assert_eq!(st.list_todos(true).len(), 0);
}

#[test]
fn test_delete_command_removes_row() {
    let mut st = Store::new();
    let id = st.add_todo("task", "low", "2024-01-01 00:00:00");
    let cmd = DeleteCommand::new(id);
    let r = cmd.execute(&mut st);
    assert!(r.is_success());
    assert_eq!(r.message, "Todo deleted");
    assert!(st.find_todo(id).is_none());
}

#[test]
fn test_delete_command_not_found() {
    let mut st = Store::new();
    let cmd = DeleteCommand::new(5);
    let r = cmd.execute(&mut st);
    assert!(!r.is_success());
    assert_eq!(r.message, "Todo not found");
}

#[test]
fn test_list_command_empty_store() {
    let st = Store::new();
    let cmd = ListCommand::new(false, None);
    let (r, body) = cmd.execute(&st);
    assert!(r.is_success());
    assert_eq!(r.message, "No todos");
    assert_eq!(body, "No todos found.");
}

#[test]
fn test_list_command_counts_message() {
    let mut st = Store::new();
    st.add_todo("a", "high", "2024-01-01 00:00:00");
    st.add_todo("b", "low", "2024-01-01 00:00:01");
    let cmd = ListCommand::new(false, None);
    let (r, _body) = cmd.execute(&st);
    assert!(r.is_success());
    assert_eq!(r.message, "Listed 2 todos");
}

#[test]
fn test_scenario_add_complete_list() {
    let mut st = Store::new();

    let add1 = AddCommand::new("Buy milk".to_string(), Some("high".to_string()));
    let r1 = add1.execute(&mut st, "2024-01-01 00:00:00");
    assert!(r1.is_success());
    assert_eq!(r1.message, "Todo added with ID 1");

    let add2 = AddCommand::new("Write report".to_string(), Some("low".to_string()));
    let r2 = add2.execute(&mut st, "2024-01-01 00:00:01");
    assert!(r2.is_success());
    assert_eq!(r2.message, "Todo added with ID 2");

    let pending = st.list_todos(false);
    assert_eq!(pending.len(), 2);
    assert_eq!(pending[0].id, 1);
    assert_eq!(pending[0].text, "Buy milk");
    assert_eq!(pending[0].priority, "high");
    assert_eq!(pending[1].id, 2);
    assert_eq!(pending[1].text, "Write report");
    assert_eq!(pending[1].priority, "low");

    let complete = CompleteCommand::new(1);
    let rc = complete.execute(&mut st, "2024-01-01 00:00:02");
    assert!(rc.is_success());

    let pending_after = st.list_todos(false);
    assert_eq!(pending_after.len(), 1);
    assert_eq!(pending_after[0].id, 2);

    let all = st.list_todos(true);
    assert_eq!(all.len(), 2);
    assert_eq!(all[0].id, 2);
    assert_eq!(all[0].completed, 0);
    assert_eq!(all[1].id, 1);
    assert_eq!(all[1].completed, 1);
}

#[test]
fn test_version_command_plain() {
    let cmd = VersionCommand::new(false);
    let (r, body) = cmd.execute();
    assert!(r.is_success());
    assert_eq!(body, "todocli-rust 0.1.0");
}

#[test]
fn test_version_command_json() {
    let cmd = VersionCommand::new(true);
    let (r, body) = cmd.execute();
    assert!(r.is_success());
    let v: serde_json::Value = serde_json::from_str(&body).unwrap();
    assert_eq!(v["name"], "todocli-rust");
    assert_eq!(v["version"], "0.1.0");
}
