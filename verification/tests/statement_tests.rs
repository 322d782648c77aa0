use mv_consistency::statement::{base_table, insert_statement, select_statement, view_table};

#[test]
fn insert_writes_three_bound_values_and_is_idempotent() {
    let statement = insert_statement();
    assert_eq!(statement.text, "INSERT INTO view_test.tab (p, c, r) VALUES (?, ?, ?)");
    assert!(statement.idempotent);
}

#[test]
fn select_scans_the_named_table_and_is_idempotent() {
    let statement = select_statement("tab");
    assert_eq!(statement.text, "SELECT p, c, r FROM view_test.tab");
    assert!(statement.idempotent);
    let statement = select_statement("tab_view");
    assert_eq!(statement.text, "SELECT p, c, r FROM view_test.tab_view");
    assert!(statement.idempotent);
}

#[test]
fn table_names() {
    assert_eq!(base_table(), "tab");
    assert_eq!(view_table(), "tab_view");
    assert_eq!(select_statement(base_table()).text, "SELECT p, c, r FROM view_test.tab");
    assert_eq!(select_statement(view_table()).text, "SELECT p, c, r FROM view_test.tab_view");
}
