use tg_schema::schema::{Field, Method, Parameter, Type};
use tg_schema::text::{starts_with, str_eq, trim_str};

#[test]
fn type_new_keeps_its_parts() {
    let f = Field::new(
        "id".to_string(),
        "i64".to_string(),
        false,
        "Unique identifier".to_string(),
    );
    let t = Type::new("User".to_string(), "A user.".to_string(), vec![f]);
    assert_eq!(t.name, "User");
    assert_eq!(t.description, "A user.");
    assert_eq!(t.fields.len(), 1);
    assert_eq!(t.fields[0].name, "id");
    assert_eq!(t.fields[0].ty, "i64");
    assert_eq!(t.fields[0].optional, false);
    assert_eq!(t.fields[0].description, "Unique identifier");
}

#[test]
fn field_new_keeps_its_parts() {
    let f = Field::new("title".to_string(), "String".to_string(), true, "Optional.".to_string());
    assert_eq!(f.name, "title");
    assert_eq!(f.ty, "String");
    assert_eq!(f.optional, true);
    assert_eq!(f.description, "Optional.");
}

#[test]
fn method_new_keeps_its_parts() {
    let p = Parameter::new("chat_id".to_string(), "i64".to_string(), true, "Target".to_string());
    let m = Method::new("sendMessage".to_string(), "Sends.".to_string(), vec![p]);
    assert_eq!(m.name, "sendMessage");
    assert_eq!(m.parameters.len(), 1);
    assert_eq!(m.parameters[0].required, true);
}

#[test]
fn trim_removes_outer_whitespace_only() {
    assert_eq!(trim_str("  a b \t\n"), "a b");
    assert_eq!(trim_str(""), "");
    assert_eq!(trim_str("   "), "");
    assert_eq!(trim_str("xy"), "xy");
}

#[test]
fn prefix_and_equality_helpers() {
    assert!(str_eq("abc", "abc"));
    assert!(!str_eq("abc", "abd"));
    assert!(starts_with("Optional. Pass True", "Optional"));
    assert!(!starts_with("Opt", "Optional"));
}
