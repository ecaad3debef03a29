use endpoint_gen::container::update_container_content;
use endpoint_gen::handlers::{update_functions_content, update_web_handler_content};
use endpoint_gen::wire::{add_new_builder_function, add_to_existing_builder, update_wire_content};

fn is_subsequence(a: &str, b: &str) -> bool {
    let mut rest = b.chars();
    a.chars().all(|c| rest.any(|d| d == c))
}

const CONTAINER: &str = "package entrypoints\n\nimport (\n)\n\ntype UserContainer struct {\n    Get userh.Get\n}\n\nfunc NewUserContainer(Get userh.Get) UserContainer {\n    return UserContainer{\n        Get: Get,\n    }\n}\n";

const WIRE: &str = "package dependencies\n\nimport (\n\t\"github.com/google/wire\"\n)\n\nfunc Build() WebHandlerContainer {\n\twire.Build(\n\t\twire.Struct(new(WebHandlerContainer), \"*\"),\n\t)\n\treturn WebHandlerContainer{}\n}\n";

#[test]
fn container_edit_keeps_existing_text() {
    let r = update_container_content(CONTAINER, "User", "Create", "proj").unwrap();
    assert!(is_subsequence(CONTAINER, &r));
    assert!(r.len() > CONTAINER.len());
}

#[test]
fn wire_edit_keeps_existing_text() {
    let r = update_wire_content(WIRE, "user", "Create", "proj").unwrap();
    assert!(is_subsequence(WIRE, &r));
    let again = update_wire_content(&r, "user", "Delete", "proj").unwrap();
    assert!(is_subsequence(&r, &again));
}

#[test]
fn web_and_functions_edits_keep_existing_text() {
    let web = "type WebHandlerContainer struct {\n}\n";
    let r = update_web_handler_content(web, "user").unwrap();
    assert!(is_subsequence(web, &r));
    let functions = "POST(fn.Handlers.User.Get.Handle()))\n";
    let (f, found) = update_functions_content(functions, "user", "create").unwrap();
    assert!(found);
    assert!(is_subsequence(functions, &f));
}

#[test]
fn container_import_added_once() {
    let once = update_container_content(CONTAINER, "User", "Create", "proj").unwrap();
    let twice = update_container_content(&once, "User", "Delete", "proj").unwrap();
    let import = "userh \"proj/src/entrypoints/rest/user\"";
    assert_eq!(once.matches(import).count(), 1);
    assert_eq!(twice.matches(import).count(), 1);
}

#[test]
fn wire_imports_added_once() {
    let once = update_wire_content(WIRE, "orderItem", "Create", "proj").unwrap();
    let twice = update_wire_content(&once, "orderItem", "Delete", "proj").unwrap();
    for import in [
        "order_itemuc \"proj/src/core/usecases/order_item\"",
        "order_itemh \"proj/src/entrypoints/rest/order_item\"",
    ] {
        assert_eq!(once.matches(import).count(), 1);
        assert_eq!(twice.matches(import).count(), 1);
    }
    assert_eq!(twice.matches("func buildOrderItemContainer(").count(), 1);
    assert!(twice.contains("order_itemh.NewDelete,"));
}

#[test]
fn fresh_container_gets_second_handler() {
    let fresh = endpoint_gen::template::generate_container_content("user", "GetUser", "proj");
    let r = update_container_content(&fresh, "user", "CreateUser", "proj").unwrap();
    assert_eq!(r.matches("userh \"proj/src/entrypoints/rest/user\"").count(), 1);
    assert!(r.contains("GetUser userh.GetUser\n\n    CreateUser userh.CreateUser\n}"));
    assert!(r.contains(
        "func NewuserContainer(GetUser userh.GetUser, CreateUser userh.CreateUser) userContainer {"
    ));
    assert!(r.contains("CreateUser: CreateUser,\n}"));
}

#[test]
fn fresh_container_second_handler_full_text() {
    let fresh = endpoint_gen::template::generate_container_content("user", "GetUser", "proj");
    let r = update_container_content(&fresh, "user", "CreateUser", "proj");
    let expected = "package entrypoints\n\nimport (\n    userh \"proj/src/entrypoints/rest/user\"\n)\n\ntype userContainer struct {\n    GetUser userh.GetUser\n\n    CreateUser userh.CreateUser\n}\n\nfunc NewuserContainer(GetUser userh.GetUser, CreateUser userh.CreateUser) userContainer {\n    return userContainer{\n        GetUser: GetUser,\n    \n        CreateUser: CreateUser,\n}\n}\n";
    assert_eq!(r, Ok(String::from(expected)));
}

#[test]
fn appended_builder_is_the_one_extended() {
    let n = add_new_builder_function("package dependencies\n", "user", "User", "Create");
    let q = n.rfind("repositorySet,").unwrap();
    let expected = format!("{}\t\tuserh.NewDelete,\n\t\tuseruc.NewDelete,\n\t\t{}", &n[..q], &n[q..]);
    assert_eq!(add_to_existing_builder(&n, "user", "Delete", "User"), expected);
}

#[test]
fn second_registration_extends_builder() {
    let once = update_wire_content(WIRE, "user", "Create", "proj").unwrap();
    let twice = update_wire_content(&once, "user", "Delete", "proj").unwrap();
    let q = once.rfind("repositorySet,").unwrap();
    let expected = format!("{}\t\tuserh.NewDelete,\n\t\tuseruc.NewDelete,\n\t\t{}", &once[..q], &once[q..]);
    assert_eq!(twice, expected);
}

#[test]
fn web_container_registration_once_for_ascii_module() {
    let web = "type WebHandlerContainer struct {\n\tUser entrypoints.UserContainer\n}\n";
    let once = update_web_handler_content(web, "orderItem").unwrap();
    let twice = update_web_handler_content(&once, "orderItem").unwrap();
    assert_eq!(once, twice);
    assert_eq!(once.matches("\tOrderItem entrypoints.OrderItemContainer\n").count(), 1);
}

#[test]
fn paren_in_project_can_split_an_existing_import() {
    let import = "xuc \"p)/src/core/usecases/x\"";
    let once = update_wire_content(import, "x", "A", "p)").unwrap();
    assert_eq!(once.matches(import).count(), 0);
    let twice = update_wire_content(&once, "x", "B", "p)").unwrap();
    assert_eq!(twice.matches(import).count(), 1);
}

#[test]
fn second_registration_with_paren_in_project_keeps_imports() {
    let once = update_wire_content(WIRE, "user", "Create", "p)").unwrap();
    let twice = update_wire_content(&once, "user", "Delete", "p)").unwrap();
    let q = once.rfind("repositorySet,").unwrap();
    let expected = format!("{}\t\tuserh.NewDelete,\n\t\tuseruc.NewDelete,\n\t\t{}", &once[..q], &once[q..]);
    assert_eq!(twice, expected);
}

#[test]
fn endpoint_named_repository_set_takes_the_second_providers() {
    let once = update_wire_content(WIRE, "user", "repositorySet", "proj").unwrap();
    let twice = update_wire_content(&once, "user", "Delete", "proj").unwrap();
    assert!(twice.contains("userh.NewDelete,\n\t\tuseruc.NewDelete,\n\t\trepositorySet,\n\t\tuseruc.NewrepositorySet,"));
}
