use endpoint_gen::endpoint::plan_endpoint;
use endpoint_gen::gomod::{answer_is_yes, project_name_from_go_mod};
use endpoint_gen::template::{generate_container_content, generate_rest_content, generate_usecase_content};
use endpoint_gen::text::trim_str;

#[test]
fn project_name_first_line() {
    let r = project_name_from_go_mod("module github.com/acme/shop\n\ngo 1.21\n");
    assert_eq!(r, Some(String::from("github.com/acme/shop")));
}

#[test]
fn project_name_later_line_with_crlf_and_spaces() {
    let r = project_name_from_go_mod("go 1.21\r\nmodule  shop \r\nrequire x v1\r\n");
    assert_eq!(r, Some(String::from("shop")));
}

#[test]
fn project_name_repeated_directive_is_stripped() {
    assert_eq!(project_name_from_go_mod("module module shop"), Some(String::from("shop")));
}

#[test]
fn project_name_first_declaration_wins() {
    assert_eq!(project_name_from_go_mod("\nmodule a\nmodule b"), Some(String::from("a")));
}

#[test]
fn project_name_trailing_carriage_return_on_last_line() {
    assert_eq!(project_name_from_go_mod("module x\r"), Some(String::from("x")));
}

#[test]
fn project_name_missing() {
    assert_eq!(project_name_from_go_mod("// comment\nrequire y v1\n"), None);
    assert_eq!(project_name_from_go_mod(""), None);
    assert_eq!(project_name_from_go_mod("modulex"), None);
    assert_eq!(project_name_from_go_mod(" module x"), None);
}

#[test]
fn project_name_empty_after_directive() {
    assert_eq!(project_name_from_go_mod("module \n"), Some(String::new()));
}

#[test]
fn yes_answers() {
    assert!(answer_is_yes("y"));
    assert!(answer_is_yes(" Y \n"));
    assert!(!answer_is_yes("yes"));
    assert!(!answer_is_yes(""));
    assert!(!answer_is_yes("n\n"));
}

#[test]
fn trim_unicode_whitespace() {
    assert_eq!(trim_str("  a b \t\n"), "a b");
    assert_eq!(trim_str("\u{3000}x\u{a0}"), "x");
    assert_eq!(trim_str(" \t "), "");
}

#[test]
fn plan_names_and_contents() {
    let p = plan_endpoint("orderItem", "createOrder", "acme");
    assert_eq!(p.endpoint_type, "CreateOrder");
    assert_eq!(p.module_dir, "order_item");
    assert_eq!(p.endpoint_file, "create_order.go");
    assert_eq!(p.test_file, "create_order_test.go");
    assert_eq!(p.container_file, "order_item.go");
    assert_eq!(p.usecase_content, generate_usecase_content("orderItem", "CreateOrder"));
    assert_eq!(p.rest_content, generate_rest_content("orderItem", "CreateOrder", "acme"));
    assert_eq!(p.container_content, generate_container_content("orderItem", "CreateOrder", "acme"));
    assert_eq!(p.errors_content, "package orderItem\n\nimport \"errors\"\n\nvar (\n    ErrSample = errors.New(\"sample error\")\n)\n");
}
