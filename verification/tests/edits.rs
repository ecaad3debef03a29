use endpoint_gen::container::{add_constructor_param, add_import, update_container_content};
use endpoint_gen::edit::EditError;
use endpoint_gen::handlers::{insert_route, update_functions_content, update_web_handler_content};
use endpoint_gen::wire::{
    add_builder_to_wire_build, add_new_builder_function, add_to_existing_builder, add_wire_import,
    update_wire_content,
};

#[test]
fn container_registers_second_handler() {
    let content = "package entrypoints\n\nimport (\n    userh \"proj/src/entrypoints/rest/user\"\n)\n\ntype UserContainer struct {\n    GetUser userh.GetUser\n}\n\nfunc NewUserContainer(GetUser userh.GetUser) UserContainer {\n    return UserContainer{\n        GetUser: GetUser,\n    }\n}\n";
    let r = update_container_content(content, "User", "CreateUser", "proj");
    assert_eq!(r, Ok(String::from("package entrypoints\n\nimport (\n    userh \"proj/src/entrypoints/rest/user\"\n)\n\ntype UserContainer struct {\n    GetUser userh.GetUser\n\n    CreateUser Userh.CreateUser\n}\n\nfunc NewUserContainer(GetUser userh.GetUser, CreateUser Userh.CreateUser) UserContainer {\n    return UserContainer{\n        GetUser: GetUser,\n    \n        CreateUser: CreateUser,\n}\n}\n")));
}

#[test]
fn container_adds_missing_import_and_first_parameter() {
    let content = "package entrypoints\n\nimport (\n)\n\ntype OrderItemContainer struct {\n}\n\nfunc NewOrderItemContainer() OrderItemContainer {\n    return OrderItemContainer{\n    }\n}\n";
    let r = update_container_content(content, "OrderItem", "Add", "acme/shop");
    assert_eq!(r, Ok(String::from("package entrypoints\n\nimport (\n    order_itemh \"acme/shop/src/entrypoints/rest/order_item\"\n)\n\ntype OrderItemContainer struct {\n\n    Add OrderItemh.Add\n}\n\nfunc NewOrderItemContainer(, Add OrderItemh.Add) OrderItemContainer {\n    return OrderItemContainer{\n    \n        Add: Add,\n}\n}\n")));
}

#[test]
fn container_without_import_block_is_refused() {
    let r = update_container_content("package entrypoints\n", "User", "Get", "proj");
    assert_eq!(r, Err(EditError::MissingImportBlock));
}

#[test]
fn container_with_unclosed_struct_is_refused() {
    let r = update_container_content("import (\n)\ntype UserContainer struct {\n", "User", "Get", "proj");
    assert_eq!(r, Err(EditError::UnclosedStruct));
}

#[test]
fn container_with_unclosed_return_is_refused() {
    let r = update_container_content("import (\n    userh \"p/src/entrypoints/rest/user\"\n)\nfunc NewUserContainer(a int) UserContainer {\n    return UserContainer{\n", "User", "Get", "p");
    assert_eq!(r, Err(EditError::UnclosedReturn));
}

#[test]
fn container_with_module_that_breaks_the_pattern_is_refused() {
    let r = update_container_content("import (\n)\n", "Us(er", "Get", "p");
    assert_eq!(r, Err(EditError::RejectedPattern));
}

#[test]
fn container_without_struct_or_constructor_only_gets_import() {
    let r = update_container_content("package entrypoints\n\nimport (\n)\n", "User", "Get", "p");
    assert_eq!(r, Ok(String::from("package entrypoints\n\nimport (\n    userh \"p/src/entrypoints/rest/user\"\n)\n")));
}

#[test]
fn constructor_param_from_given_signature() {
    let r = add_constructor_param("x := 1\nfunc NewUserContainer(a A) UserContainer {\n    return UserContainer{\n    }\n}\n", Some("func NewUserContainer(a A)"), "User", "Get");
    assert_eq!(r, Ok(String::from("x := 1\nfunc NewUserContainer(a A, Get Userh.Get) UserContainer {\n    return UserContainer{\n    \n        Get: Get,\n}\n}\n")));
}

#[test]
fn constructor_param_when_signature_has_no_paren() {
    let r = add_constructor_param("x := 1\nfunc NewUserContainer(a A) UserContainer {\n    return UserContainer{\n    }\n}\n", Some("func NewUserContainer("), "User", "Get");
    assert_eq!(r, Ok(String::from("x := 1\nfunc NewUserContainer(, Get Userh.Get)a A) UserContainer {\n    return UserContainer{\n    \n        Get: Get,\n}\n}\n")));
}

#[test]
fn constructor_param_without_signature_keeps_content() {
    let r = add_constructor_param("x := 1\nfunc NewUserContainer(a A) UserContainer {\n    return UserContainer{\n    }\n}\n", None, "User", "Get");
    assert_eq!(r, Ok(String::from("x := 1\nfunc NewUserContainer(a A) UserContainer {\n    return UserContainer{\n    }\n}\n")));
}

#[test]
fn add_import_inserts_before_first_paren() {
    let r = add_import("import (\n)\n", "order_item", "acme");
    assert_eq!(r, "import (\n    order_itemh \"acme/src/entrypoints/rest/order_item\"\n)\n");
}

#[test]
fn web_container_gets_module_field() {
    let r = update_web_handler_content("package dependencies\n\ntype WebHandlerContainer struct {\n\tUser entrypoints.UserContainer\n}\n", "order");
    assert_eq!(r, Some(String::from("package dependencies\n\ntype WebHandlerContainer struct {\n\tUser entrypoints.UserContainer\n\tOrder entrypoints.OrderContainer\n}\n")));
}

#[test]
fn web_container_registration_is_idempotent() {
    let once = update_web_handler_content("package dependencies\n\ntype WebHandlerContainer struct {\n\tUser entrypoints.UserContainer\n}\n", "order").unwrap();
    let twice = update_web_handler_content(&once, "order").unwrap();
    assert_eq!(once, twice);
}

#[test]
fn web_container_existing_field_is_kept() {
    let r = update_web_handler_content("package dependencies\n\ntype WebHandlerContainer struct {\n\tUser entrypoints.UserContainer\n}\n", "user");
    assert_eq!(r, Some(String::from("package dependencies\n\ntype WebHandlerContainer struct {\n\tUser entrypoints.UserContainer\n}\n")));
}

#[test]
fn web_container_missing_struct() {
    assert_eq!(update_web_handler_content("package dependencies\n", "user"), None);
}

#[test]
fn web_container_unclosed_struct_appends_at_end() {
    let r = update_web_handler_content("type WebHandlerContainer struct {\n\tA entrypoints.AContainer\n", "b");
    assert_eq!(r, Some(String::from("type WebHandlerContainer struct {\n\tA entrypoints.AContainer\n\tB entrypoints.BContainer\n")));
}

#[test]
fn functions_gets_route_after_first() {
    let r = update_functions_content("package main\n\nfunc init() {\n    functions.HTTP(\"/api/v1/user/get\", fn.\n        Public().\n        Path(\"/api/v1/user/get\").\n        GET(fn.Handlers.User.Get.Handle()))\n}\n", "orderItem", "createOrder");
    assert_eq!(r, Ok((String::from("package main\n\nfunc init() {\n    functions.HTTP(\"/api/v1/user/get\", fn.\n        Public().\n        Path(\"/api/v1/user/get\").\n        GET(fn.Handlers.User.Get.Handle()))\nfunctions.HTTP(\"/api/v1/order_item/create_order\", fn.\n        Public().\n        Path(\"/api/v1/order_item/create_order\").\n        POST(fn.OrderItem.CreateOrder.Handle()))\n}\n"), true)));
}

#[test]
fn functions_without_route_is_unchanged() {
    let r = update_functions_content("package main\n", "user", "get");
    assert_eq!(r, Ok((String::from("package main\n"), false)));
}

#[test]
fn insert_route_after_given_match() {
    let found = Some((String::from("ab"), String::from("CD"), String::from("ef")));
    let r = insert_route("abCDef", &found, true, "user", "get");
    assert_eq!(r, (String::from("abCD\nfunctions.HTTP(\"/api/v1/user/get\", fn.\n        Public().\n        Path(\"/api/v1/user/get\").\n        POST(fn.User.Get.Handle()))ef"), true));
}

#[test]
fn insert_route_without_captures_keeps_content() {
    let found = Some((String::from("ab"), String::from("CD"), String::from("ef")));
    let r = insert_route("abCDef", &found, false, "user", "get");
    assert_eq!(r, (String::from("abCDef"), true));
}

#[test]
fn wire_new_module_gets_imports_and_builder() {
    let r = update_wire_content("//go:build wireinject\n\npackage dependencies\n\nimport (\n\t\"github.com/google/wire\"\n)\n\nfunc Build() WebHandlerContainer {\n\twire.Build(\n\t\tbuildUserContainer,\n\t\twire.Struct(new(WebHandlerContainer), \"*\"),\n\t)\n\treturn WebHandlerContainer{}\n}\n", "orderItem", "Create", "acme");
    assert_eq!(r, Ok(String::from("//go:build wireinject\n\npackage dependencies\n\nimport (\n\t\"github.com/google/wire\"\n\torder_itemuc \"acme/src/core/usecases/order_item\"\n\torder_itemh \"acme/src/entrypoints/rest/order_item\"\n)\n\nfunc Build() WebHandlerContainer {\n\twire.Build(\n\t\tbuildUserContainer,\n\t\t\n\t\tbuildOrderItemContainer,\n\t\twire.Struct(new(WebHandlerContainer), \"*\"),\n\t)\n\treturn WebHandlerContainer{}\n}\n\n\nfunc buildOrderItemContainer(conf *config.Config, logger *zap.Logger, db *gorm.DB) entrypoints.OrderItemContainer {\n\twire.Build(\n\t\tentrypoints.NewOrderItemContainer,\n\t\torder_itemh.NewCreate,\n\t\torder_itemuc.NewCreate,\n\t\trepositorySet,\n\t)\n\treturn entrypoints.OrderItemContainer{}\n}")));
}

#[test]
fn wire_existing_module_gets_providers() {
    let r = update_wire_content("//go:build wireinject\n\npackage dependencies\n\nimport (\n\t\"github.com/google/wire\"\n\torder_itemuc \"acme/src/core/usecases/order_item\"\n\torder_itemh \"acme/src/entrypoints/rest/order_item\"\n)\n\nfunc Build() WebHandlerContainer {\n\twire.Build(\n\t\tbuildUserContainer,\n\t\t\n\t\tbuildOrderItemContainer,\n\t\twire.Struct(new(WebHandlerContainer), \"*\"),\n\t)\n\treturn WebHandlerContainer{}\n}\n\n\nfunc buildOrderItemContainer(conf *config.Config, logger *zap.Logger, db *gorm.DB) entrypoints.OrderItemContainer {\n\twire.Build(\n\t\tentrypoints.NewOrderItemContainer,\n\t\torder_itemh.NewCreate,\n\t\torder_itemuc.NewCreate,\n\t\trepositorySet,\n\t)\n\treturn entrypoints.OrderItemContainer{}\n}", "orderItem", "Delete", "acme");
    assert_eq!(r, Ok(String::from("//go:build wireinject\n\npackage dependencies\n\nimport (\n\t\"github.com/google/wire\"\n\torder_itemuc \"acme/src/core/usecases/order_item\"\n\torder_itemh \"acme/src/entrypoints/rest/order_item\"\n)\n\nfunc Build() WebHandlerContainer {\n\twire.Build(\n\t\tbuildUserContainer,\n\t\t\n\t\tbuildOrderItemContainer,\n\t\twire.Struct(new(WebHandlerContainer), \"*\"),\n\t)\n\treturn WebHandlerContainer{}\n}\n\n\nfunc buildOrderItemContainer(conf *config.Config, logger *zap.Logger, db *gorm.DB) entrypoints.OrderItemContainer {\n\twire.Build(\n\t\tentrypoints.NewOrderItemContainer,\n\t\torder_itemh.NewCreate,\n\t\torder_itemuc.NewCreate,\n\t\t\t\torder_itemh.NewDelete,\n\t\torder_itemuc.NewDelete,\n\t\trepositorySet,\n\t)\n\treturn entrypoints.OrderItemContainer{}\n}")));
}

#[test]
fn wire_builder_without_repository_set_is_refused() {
    let r = update_wire_content("import (\n)\nfunc buildUserContainer() {\n\twire.Build(\n\t)\n}\n", "user", "Get", "p");
    assert_eq!(r, Err(EditError::MissingRepositorySet));
}

#[test]
fn add_wire_import_goes_before_closing_line() {
    assert_eq!(add_wire_import("import (\n\t\"a\"\n)\n", "b"), "import (\n\t\"a\"\n\tb\n)\n");
}

#[test]
fn add_wire_import_without_paren_goes_first() {
    assert_eq!(add_wire_import("package x", "b"), "\n\tbpackage x");
}

#[test]
fn add_wire_import_paren_on_first_line() {
    assert_eq!(add_wire_import("import ()", "b"), "import (\n\tb)");
}

#[test]
fn add_builder_reference_without_anchor_keeps_content() {
    assert_eq!(add_builder_to_wire_build("package x", "User"), "package x");
}

#[test]
fn add_to_existing_builder_without_builder_keeps_content() {
    assert_eq!(add_to_existing_builder("package x", "user", "Get", "User"), "package x");
}

#[test]
fn add_new_builder_function_appends() {
    assert_eq!(add_new_builder_function("x", "user", "User", "Get"), "x\n\nfunc buildUserContainer(conf *config.Config, logger *zap.Logger, db *gorm.DB) entrypoints.UserContainer {\n\twire.Build(\n\t\tentrypoints.NewUserContainer,\n\t\tuserh.NewGet,\n\t\tuseruc.NewGet,\n\t\trepositorySet,\n\t)\n\treturn entrypoints.UserContainer{}\n}");
}
