use nene::helper::{
    rust_arg_type_helper, rust_caller_type_helper, rust_default_helper, rust_type_helper, snake_helper,
    type_kind, upper_snake_helper, TypeKind,
};

fn map(t: &str) -> String {
    rust_type_helper(t.to_string())
}

#[test]
fn scalar_type_mapping() {
    assert_eq!(map("BOOL"), "bool");
    assert_eq!(map("DATE"), "time::Date");
    assert_eq!(map("TIMESTAMP"), "time::OffsetDateTime");
    assert_eq!(map("FLOAT64"), "f64");
    assert_eq!(map("NUMERIC"), "google_cloud_spanner::bigdecimal::BigDecimal");
    assert_eq!(map("BYTES(MAX)"), "Vec<u8>");
    assert_eq!(map("BYTES(16)"), "Vec<u8>");
    assert_eq!(map("INT64"), "i64");
    assert_eq!(map("STRING(MAX)"), "String");
    assert_eq!(map("JSON"), "String");
    assert_eq!(map(""), "String");
}

#[test]
fn array_type_mapping() {
    assert_eq!(map("ARRAY<INT64>"), "Vec<i64>");
    assert_eq!(map("ARRAY<STRING(MAX)>"), "Vec<String>");
    assert_eq!(map("ARRAY<BYTES(10)>"), "Vec<Vec<u8>>");
    assert_eq!(map("ARRAY<TIMESTAMP>"), "Vec<time::OffsetDateTime>");
    for base in ["BOOL", "DATE", "TIMESTAMP", "FLOAT64", "NUMERIC", "BYTES(MAX)", "INT64", "STRING(MAX)"] {
        assert_eq!(map(&format!("ARRAY<{}>", base)), format!("Vec<{}>", map(base)));
    }
}

#[test]
fn type_mapping_is_deterministic() {
    for t in ["ARRAY<DATE>", "NUMERIC", "STRING(10)"] {
        assert_eq!(map(t), map(t));
    }
}

#[test]
fn type_kinds() {
    assert!(matches!(type_kind("BYTES(8)"), TypeKind::Bytes));
    assert!(matches!(type_kind("INT64"), TypeKind::Int64));
    assert!(matches!(type_kind("INT"), TypeKind::Text));
}

#[test]
fn default_values() {
    assert_eq!(rust_default_helper(false, "DATE".to_string()), "time::OffsetDateTime::now_utc().date()");
    assert_eq!(rust_default_helper(false, "TIMESTAMP".to_string()), "time::OffsetDateTime::now_utc()");
    assert_eq!(rust_default_helper(true, "DATE".to_string()), "Default::default()");
    assert_eq!(rust_default_helper(true, "TIMESTAMP".to_string()), "Default::default()");
    assert_eq!(rust_default_helper(false, "INT64".to_string()), "Default::default()");
}

#[test]
fn argument_types() {
    assert_eq!(rust_arg_type_helper("String".to_string()), "&str");
    assert_eq!(rust_arg_type_helper("i64".to_string()), "&i64");
    assert_eq!(rust_arg_type_helper("Vec<String>".to_string()), "&Vec<str>");
    assert_eq!(rust_arg_type_helper("Option<String>".to_string()), "&Option<str>");
}

#[test]
fn caller_types() {
    assert_eq!(rust_caller_type_helper("Vec<u8>".to_string()), "Vec::<u8>");
    assert_eq!(rust_caller_type_helper("Vec<Vec<u8>>".to_string()), "Vec::<Vec::<u8>>");
    assert_eq!(rust_caller_type_helper("i64".to_string()), "i64");
}

#[test]
fn case_conversion() {
    assert_eq!(snake_helper("UserAccount".to_string()), "user_account");
    assert_eq!(snake_helper("SingerId".to_string()), "singer_id");
    assert_eq!(upper_snake_helper("UserAccount".to_string()), "USER_ACCOUNT");
    assert_eq!(upper_snake_helper("display_name".to_string()), "DISPLAY_NAME");
}
