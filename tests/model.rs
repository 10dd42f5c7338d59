use nene::model::{build_tables, Column, RawTable, Table};

fn col(name: &str, pos: i64, ty: &str, nullable: bool, pk: bool) -> Column {
    Column::new(name.to_string(), pos, ty.to_string(), nullable, pk, false, false)
}

#[test]
fn column_new_keeps_fields() {
    let c = Column::new("id".to_string(), 3, "INT64".to_string(), true, false, true, true);
    assert_eq!(c.column_name, "id");
    assert_eq!(c.ordinal_position, 3);
    assert_eq!(c.spanner_type, "INT64");
    assert!(c.nullable);
    assert!(!c.primary_key);
    assert!(c.generated);
    assert!(c.allow_commit_timestamp);
}

#[test]
fn user_account_single_key() {
    let t = Table::new(
        "UserAccount".to_string(),
        None,
        vec![
            col("user_id", 1, "INT64", false, true),
            col("display_name", 2, "STRING(MAX)", true, false),
            col("created_at", 3, "TIMESTAMP", false, false),
        ],
        vec![],
        true,
        false,
    );
    assert_eq!(t.table_name, "UserAccount");
    assert!(t.parent_table_name.is_none());
    assert_eq!(t.columns.len(), 3);
    assert!(t.indexes.is_empty());
    assert!(!t.composite_key);
    assert!(t.json);
    assert!(!t.default);
    assert_eq!(t.primary_keys.len(), 1);
    assert_eq!(t.primary_keys[0].column.column_name, "user_id");
    assert_eq!(t.primary_keys[0].uppers.len(), 1);
    assert!(t.primary_keys[0].last);
}

#[test]
fn composite_key_prefixes() {
    let t = Table::new(
        "Record".to_string(),
        Some("Tenant".to_string()),
        vec![col("tenant_id", 1, "INT64", false, true), col("record_id", 2, "INT64", false, true)],
        vec![],
        false,
        false,
    );
    assert!(t.composite_key);
    assert_eq!(t.parent_table_name.as_deref(), Some("Tenant"));
    assert_eq!(t.primary_keys.len(), 2);
    let first = &t.primary_keys[0];
    assert_eq!(first.column.column_name, "tenant_id");
    let names: Vec<&str> = first.uppers.iter().map(|c| c.column_name.as_str()).collect();
    assert_eq!(names, vec!["tenant_id"]);
    assert!(!first.last);
    let second = &t.primary_keys[1];
    assert_eq!(second.column.column_name, "record_id");
    let names: Vec<&str> = second.uppers.iter().map(|c| c.column_name.as_str()).collect();
    assert_eq!(names, vec!["tenant_id", "record_id"]);
    assert!(second.last);
}

#[test]
fn keys_follow_ordinal_order_among_other_columns() {
    let t = Table::new(
        "Event".to_string(),
        None,
        vec![
            col("a", 1, "STRING(36)", false, true),
            col("payload", 2, "BYTES(MAX)", true, false),
            col("b", 3, "INT64", false, true),
            col("c", 5, "DATE", false, true),
        ],
        vec![],
        false,
        true,
    );
    assert!(t.composite_key);
    let keys: Vec<&str> = t.primary_keys.iter().map(|p| p.column.column_name.as_str()).collect();
    assert_eq!(keys, vec!["a", "b", "c"]);
    let lens: Vec<usize> = t.primary_keys.iter().map(|p| p.uppers.len()).collect();
    assert_eq!(lens, vec![1, 2, 3]);
    let lasts: Vec<bool> = t.primary_keys.iter().map(|p| p.last).collect();
    assert_eq!(lasts, vec![false, false, true]);
    assert_eq!(t.primary_keys.iter().filter(|p| p.last).count(), 1);
}

#[test]
fn table_without_key_columns() {
    let t = Table::new(
        "Loose".to_string(),
        None,
        vec![col("x", 1, "STRING(MAX)", true, false)],
        vec![],
        false,
        false,
    );
    assert!(t.primary_keys.is_empty());
    assert!(!t.composite_key);
}

#[test]
fn build_tables_keeps_catalog_order_and_options() {
    let raw = vec![
        RawTable {
            table_name: "Album".to_string(),
            parent_table_name: Some("Singer".to_string()),
            columns: vec![col("singer_id", 1, "INT64", false, true), col("album_id", 2, "INT64", false, true)],
            indexes: vec![],
        },
        RawTable {
            table_name: "Singer".to_string(),
            parent_table_name: None,
            columns: vec![col("singer_id", 1, "INT64", false, true)],
            indexes: vec![],
        },
    ];
    let tables = build_tables(raw, true, true);
    assert_eq!(tables.len(), 2);
    assert_eq!(tables[0].table_name, "Album");
    assert_eq!(tables[1].table_name, "Singer");
    assert!(tables[0].composite_key);
    assert!(!tables[1].composite_key);
    assert!(tables.iter().all(|t| t.json && t.default));
}

#[test]
fn build_tables_of_empty_schema() {
    assert!(build_tables(vec![], false, false).is_empty());
}
