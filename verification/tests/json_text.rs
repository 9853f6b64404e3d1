use smech_farm::json_text::{json_array, pretty_print_json, pretty_printable, print_json_table};

#[test]
fn lays_out_an_object() {
    let json = r#"{"a":1,"b":[true,"x,y:{z}"]}"#;
    assert!(pretty_printable(json));
    assert_eq!(
        pretty_print_json(json),
        "{\n  \"a\": 1,\n  \"b\": [\n    true,\n    \"x,y:{z}\"\n  ]\n}\n"
    );
}

#[test]
fn lays_out_nothing() {
    assert_eq!(pretty_print_json(""), "\n");
    assert_eq!(pretty_print_json("[]"), "[\n  \n]\n");
}

#[test]
fn laying_out_only_adds_blanks() {
    let json = r#"[{"k":"v"},{"k":"w"}]"#;
    let laid: String = pretty_print_json(json).chars().filter(|c| !c.is_whitespace()).collect();
    assert_eq!(laid, json);
}

#[test]
fn what_closes_too_much_cannot_be_laid_out() {
    assert!(!pretty_printable("}"));
    assert!(!pretty_printable("{}]"));
    assert!(pretty_printable("\"}\""));
    assert!(pretty_printable("{{["));
}

#[test]
fn a_table_of_an_array() {
    let json = r#"[{"id":"w1","cores":8},{"id":"w2","cores":4}]"#;
    assert_eq!(
        print_json_table(json),
        "  id:              w1\n  cores:           8\n  ---\n  id:              w2\n  cores:           4\n"
    );
}

#[test]
fn a_table_of_an_object() {
    let json = "{\"version\":\"2.0.0\",\"online_workers\":3}\n";
    assert_eq!(
        print_json_table(json),
        "  version:                 2.0.0\n  online_workers:          3\n"
    );
}

#[test]
fn a_table_of_nothing() {
    assert_eq!(print_json_table("[]"), "  (empty)\n");
    assert_eq!(print_json_table("{}"), "");
}

#[test]
fn an_array_of_items() {
    assert_eq!(json_array(&Vec::new()), "[]");
    assert_eq!(json_array(&vec!["1".to_string(), "{}".to_string()]), "[1,{}]");
}
