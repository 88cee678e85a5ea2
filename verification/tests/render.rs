use todocli::commands::ListCommand;
use todocli::decode::{decode_row, RawRow, RawValue, StoreError};
use todocli::render::{json_escape, pad_left, render_json, render_table, u64_to_string};
use todocli::store::Store;
use todocli::todo::priority_rank;

#[test]
fn test_u64_to_string_values() {
    assert_eq!(u64_to_string(0), "0");
    assert_eq!(u64_to_string(7), "7");
    assert_eq!(u64_to_string(10), "10");
    assert_eq!(u64_to_string(12345), "12345");
}

#[test]
fn test_priority_rank_values() {
    assert_eq!(priority_rank("high"), 1);
    assert_eq!(priority_rank("medium"), 2);
    assert_eq!(priority_rank("low"), 3);
    assert_eq!(priority_rank("urgent"), 4);
    assert_eq!(priority_rank(""), 4);
}

#[test]
fn test_json_escape_values() {
    assert_eq!(json_escape("plain"), "plain");
    assert_eq!(json_escape("say \"hi\""), "say \\\"hi\\\"");
    assert_eq!(json_escape("back\\slash"), "back\\\\slash");
    assert_eq!(json_escape("line\nbreak"), "line\\u000abreak");
}

#[test]
fn test_pad_left_values() {
    assert_eq!(pad_left("7", 3), "  7");
    assert_eq!(pad_left("123", 3), "123");
    assert_eq!(pad_left("1234", 3), "1234");
}

#[test]
fn test_render_json_round_trip() {
    let mut st = Store::new();
    st.add_todo("Buy milk", "high", "2024-01-01 00:00:00");
    let todos = st.list_todos(false);
    let body = render_json(&todos);

    let v: serde_json::Value = serde_json::from_str(&body).unwrap();
    let arr = v.as_array().unwrap();
    assert_eq!(arr.len(), 1);
    let rec = &arr[0];
    assert_eq!(rec["id"], 1);
    assert_eq!(rec["text"], "Buy milk");
    assert_eq!(rec["priority"], "high");
    assert_eq!(rec["completed"], 0);
    assert_eq!(rec["created_at"], "2024-01-01 00:00:00");
    assert!(rec["completed_at"].is_null());
}

#[test]
fn test_render_json_completed_timestamp() {
    let mut st = Store::new();
    let id = st.add_todo("escape \"this\"", "medium", "2024-01-01 00:00:00");
    assert!(st.complete_todo(id, "2024-01-01 00:00:05"));
    let todos = st.list_todos(true);
    let body = render_json(&todos);

    let v: serde_json::Value = serde_json::from_str(&body).unwrap();
    let rec = &v.as_array().unwrap()[0];
    assert_eq!(rec["text"], "escape \"this\"");
    assert_eq!(rec["completed"], 1);
    assert_eq!(rec["completed_at"], "2024-01-01 00:00:05");
}

#[test]
fn test_list_command_json_body() {
    let mut st = Store::new();
    st.add_todo("Buy milk", "high", "2024-01-01 00:00:00");
    let cmd = ListCommand::new(false, Some("json".to_string()));
    let (r, body) = cmd.execute(&st);
    assert!(r.is_success());
    let v: serde_json::Value = serde_json::from_str(&body).unwrap();
    let rec = &v.as_array().unwrap()[0];
    assert_eq!(rec["id"], 1);
    assert_eq!(rec["priority"], "high");
    assert_eq!(rec["completed"], 0);
    assert!(rec["completed_at"].is_null());
}

#[test]
fn test_render_table_layout() {
    let mut st = Store::new();
    let a = st.add_todo("first", "high", "2024-01-01 00:00:00");
    st.add_todo("second", "low", "2024-01-01 00:00:01");
    assert!(st.complete_todo(a, "2024-01-01 00:00:02"));

    let todos = st.list_todos(true);
    let body = render_table(&todos);
    assert!(body.contains("Todos:"));
    assert!(body.contains("[HIGH]"));
    assert!(body.contains("[LOW]"));
    assert!(body.contains("✓"));
    assert!(body.contains("○"));
    assert!(body.contains("second"));
    assert!(body.contains("Total: 2 (1 pending, 1 completed)"));
}

#[test]
fn test_render_table_right_aligns_ids() {
    let mut st = Store::new();
    st.add_todo("only", "medium", "2024-01-01 00:00:00");
    let todos = st.list_todos(false);
    let body = render_table(&todos);
    assert!(body.contains("   1 only"));
}

#[test]
fn test_decode_row_ok() {
    let row = RawRow {
        id: RawValue::Integer(3),
        text: RawValue::Text("task".to_string()),
        priority: RawValue::Text("low".to_string()),
        completed: RawValue::Integer(1),
        created_at: RawValue::Text("2024-01-01 00:00:00".to_string()),
        completed_at: RawValue::Text("2024-01-01 00:00:09".to_string()),
    };
    let todo = decode_row(row).unwrap();
    assert_eq!(todo.id, 3);
    assert_eq!(todo.text, "task");
    assert_eq!(todo.priority, "low");
    assert_eq!(todo.completed, 1);
    assert_eq!(todo.created_at, "2024-01-01 00:00:00");
    assert_eq!(todo.completed_at.as_deref(), Some("2024-01-01 00:00:09"));
}

#[test]
fn test_decode_row_null_completed_at() {
    let row = RawRow {
        id: RawValue::Integer(1),
        text: RawValue::Text("task".to_string()),
        priority: RawValue::Text("medium".to_string()),
        completed: RawValue::Integer(0),
        created_at: RawValue::Text("2024-01-01 00:00:00".to_string()),
        completed_at: RawValue::Null,
    };
    let todo = decode_row(row).unwrap();
    assert!(todo.completed_at.is_none());
}

#[test]
fn test_decode_row_rejects_mismatches() {
    let good = RawRow {
        id: RawValue::Integer(1),
        text: RawValue::Text("task".to_string()),
        priority: RawValue::Text("medium".to_string()),
        completed: RawValue::Integer(0),
        created_at: RawValue::Text("2024-01-01 00:00:00".to_string()),
        completed_at: RawValue::Null,
    };

    let mut bad = good.clone();
    bad.id = RawValue::Text("1".to_string());
    assert_eq!(decode_row(bad).unwrap_err(), StoreError::DecodeError);

    let mut bad = good.clone();
    bad.text = RawValue::Null;
    assert_eq!(decode_row(bad).unwrap_err(), StoreError::DecodeError);

    let mut bad = good.clone();
    bad.priority = RawValue::Integer(2);
    assert_eq!(decode_row(bad).unwrap_err(), StoreError::DecodeError);

    let mut bad = good.clone();
    bad.completed = RawValue::Text("yes".to_string());
    assert_eq!(decode_row(bad).unwrap_err(), StoreError::DecodeError);

    let mut bad = good.clone();
    bad.created_at = RawValue::Null;
    assert_eq!(decode_row(bad).unwrap_err(), StoreError::DecodeError);

    let mut bad = good.clone();
    bad.completed_at = RawValue::Other;
    assert_eq!(decode_row(bad).unwrap_err(), StoreError::DecodeError);

    assert!(decode_row(good).is_ok());
}

#[test]
fn test_render_table_exact_text_when_uncolored() {
    // The test harness captures output, so the coloring crate emits no
    // escape codes and every segment is the plain text.
    let mut st = Store::new();
    st.add_todo("only", "medium", "2024-01-01 00:00:00");
    let todos = st.list_todos(false);
    let body = render_table(&todos);

    let sep = "─".repeat(80);
    let expected = format!(
        "\nTodos:\n{}\n○   1 only [MEDIUM]\n{}\nTotal: 1 (1 pending, 0 completed)\n",
        sep, sep
    );
    assert_eq!(body, expected);
}
