use endpoint_gen::naming::{camel_to_snake_case, capitalize_first_letter};
use endpoint_gen::template::{
    generate_codes_content, generate_container_content, generate_errors_content, generate_rest_content,
    generate_test_content, generate_usecase_content,
};

fn expected_usecase_content(module: &str, endpoint: &str) -> String {
    format!(
        r#"package {module}

import (
	"context"
	"go.uber.org/zap"
)

type {endpoint} interface {{
	Execute(ctx context.Context, request {endpoint}Request) (*{endpoint}Response, error)
}}

type {endpoint}Request struct {{
}}

func (req {endpoint}Request) Validate() error {{
	return nil
}}

type {endpoint}Response struct {{
}}

type {endpoint}Impl struct {{
	logger *zap.Logger
}}

func New{endpoint}(
	logger *zap.Logger,
) {endpoint} {{
	return &{endpoint}Impl{{
		logger: logger,
	}}
}}

func (uc *{endpoint}Impl) Execute(ctx context.Context, request {endpoint}Request) (*{endpoint}Response, error) {{
	if err := request.Validate(); err != nil {{
		return nil, err
	}}

	return &{endpoint}Response{{}}, nil
}}
"#
    )
}

fn expected_test_content(module: &str, endpoint: &str) -> String {
    format!(
        r#"package {module}

import (
    "context"
    "testing"
    "go.uber.org/zap"
    "github.com/stretchr/testify/assert"
)

func Test{endpoint}_ValidRequest(t *testing.T) {{
    ctx := context.Background()
    logger := zap.NewNop()
    uc := New{endpoint}(logger)
    
    resp, err := uc.Execute(ctx, {endpoint}Request{{}})

    assert.NoError(t, err)
}}
"#
    )
}

fn expected_errors_content(module: &str) -> String {
    format!(
        r#"package {module}

import "errors"

var (
    ErrSample = errors.New("sample error")
)
"#
    )
}

fn expected_codes_content(module: &str) -> String {
    format!(
        r#"package {module}

var (
    CodeSample = "U1"
)
"#
    )
}

fn expected_rest_content(module: &str, endpoint: &str, project_name: &str) -> String {
    let import_module = camel_to_snake_case(module);
    format!(
        r#"package {module}

import (
    "errors"
    "net/http"

    "github.com/gin-gonic/gin"
    "go.uber.org/zap"
    "{project_name}/src/core/entities"
    "{project_name}/src/core/usecases/{import_module}"
    "{project_name}/src/entrypoints/rest"
)

type {endpoint} struct {{
    useCase {module}.{endpoint}
    logger  *zap.Logger
}}

type {endpoint}Response struct {{
}}

func New{endpoint}(useCase {module}.{endpoint}, logger *zap.Logger) {endpoint} {{
    return {endpoint}{{useCase: useCase, logger: logger}}
}}

func (h {endpoint}) Handle() gin.HandlerFunc {{
    return func(c *gin.Context) {{
        req, err := h.bindRequest(c)

        if err != nil {{
            c.JSON(http.StatusBadRequest, rest.Errf("U0", "failed to bind request"))
            return
        }}

        resp, err := h.useCase.Execute(c, req)

        if err != nil {{
            status, code, message := rest.ErrResponse()
            switch {{
            case errors.Is(err, {module}.ErrSample):
                status, code, message = http.StatusBadRequest, CodeSample, "sample api error"

            default:
                h.logger.Error("{endpoint} failed", zap.Error(err), zap.Any("request", req))
            }}

            c.JSON(status, rest.Errf(code, message))
            return
        }}

        c.JSON(http.StatusOK, {endpoint}Response{{}})
    }}
}}

func (h {endpoint}) bindRequest(c *gin.Context) ({module}.{endpoint}Request, error) {{
    var req {module}.{endpoint}Request

    return req, nil
}}
"#
    )
}

fn expected_container_content(module: &str, endpoint: &str, project_name: &str) -> String {
    let import_module = camel_to_snake_case(module);
    format!(
        r#"package entrypoints

import (
    {import_module}h "{project_name}/src/entrypoints/rest/{import_module}"
)

type {module}Container struct {{
    {endpoint} {module}h.{endpoint}
}}

func New{module}Container({endpoint} {module}h.{endpoint}) {module}Container {{
    return {module}Container{{
        {endpoint}: {endpoint},
    }}
}}
"#
    )
}

#[test]
fn usecase_content_matches_template() {
    assert_eq!(generate_usecase_content("orderItem", "CreateOrder"), expected_usecase_content("orderItem", "CreateOrder"));
    assert_eq!(generate_usecase_content("user", "Get"), expected_usecase_content("user", "Get"));
    assert_eq!(generate_usecase_content("", ""), expected_usecase_content("", ""));
}

#[test]
fn test_content_matches_template() {
    assert_eq!(generate_test_content("orderItem", "CreateOrder"), expected_test_content("orderItem", "CreateOrder"));
    assert_eq!(generate_test_content("user", "Get"), expected_test_content("user", "Get"));
    assert_eq!(generate_test_content("", ""), expected_test_content("", ""));
}

#[test]
fn errors_content_matches_template() {
    assert_eq!(generate_errors_content("orderItem"), expected_errors_content("orderItem"));
    assert_eq!(generate_errors_content("user"), expected_errors_content("user"));
    assert_eq!(generate_errors_content(""), expected_errors_content(""));
}

#[test]
fn codes_content_matches_template() {
    assert_eq!(generate_codes_content("orderItem"), expected_codes_content("orderItem"));
    assert_eq!(generate_codes_content("user"), expected_codes_content("user"));
    assert_eq!(generate_codes_content(""), expected_codes_content(""));
}

#[test]
fn rest_content_matches_template() {
    assert_eq!(generate_rest_content("orderItem", "CreateOrder", "github.com/acme/shop"), expected_rest_content("orderItem", "CreateOrder", "github.com/acme/shop"));
    assert_eq!(generate_rest_content("user", "Get", "proj"), expected_rest_content("user", "Get", "proj"));
    assert_eq!(generate_rest_content("", "", ""), expected_rest_content("", "", ""));
}

#[test]
fn container_content_matches_template() {
    assert_eq!(generate_container_content("orderItem", "CreateOrder", "github.com/acme/shop"), expected_container_content("orderItem", "CreateOrder", "github.com/acme/shop"));
    assert_eq!(generate_container_content("user", "Get", "proj"), expected_container_content("user", "Get", "proj"));
    assert_eq!(generate_container_content("", "", ""), expected_container_content("", "", ""));
}

#[test]
fn capitalize_ascii() {
    assert_eq!(capitalize_first_letter("createOrder"), "CreateOrder");
}

#[test]
fn capitalize_empty() {
    assert_eq!(capitalize_first_letter(""), "");
}

#[test]
fn capitalize_already_upper() {
    assert_eq!(capitalize_first_letter("Get"), "Get");
}

#[test]
fn capitalize_non_letter() {
    assert_eq!(capitalize_first_letter("1abc"), "1abc");
}

#[test]
fn capitalize_expanding_mapping() {
    assert_eq!(capitalize_first_letter("ßx"), "SSx");
}

#[test]
fn capitalize_unicode() {
    assert_eq!(capitalize_first_letter("élan"), "Élan");
}

#[test]
fn snake_camel() {
    assert_eq!(camel_to_snake_case("orderItem"), "order_item");
}

#[test]
fn snake_pascal() {
    assert_eq!(camel_to_snake_case("OrderItem"), "order_item");
}

#[test]
fn snake_acronym() {
    assert_eq!(camel_to_snake_case("HTTPServer"), "h_t_t_p_server");
}

#[test]
fn snake_empty() {
    assert_eq!(camel_to_snake_case(""), "");
}

#[test]
fn snake_already_snake() {
    assert_eq!(camel_to_snake_case("order_item"), "order_item");
}

#[test]
fn snake_unicode_uppercase_kept() {
    assert_eq!(camel_to_snake_case("aÉb"), "a_Éb");
}

#[test]
fn snake_idempotent_on_ascii() {
    let once = camel_to_snake_case("getOrderItemByID");
    assert_eq!(camel_to_snake_case(&once), once);
}
#[test]
fn rest_content_imports_snake_case_packages() {
    let r = generate_rest_content("orderItem", "CreateOrder", "github.com/acme/shop");
    assert!(r.starts_with("package orderItem\n"));
    assert!(r.contains("\"github.com/acme/shop/src/core/usecases/order_item\"\n"));
    assert!(r.contains("func NewCreateOrder(useCase orderItem.CreateOrder, logger *zap.Logger) CreateOrder {"));
}

#[test]
fn container_content_literal() {
    assert_eq!(
        generate_container_content("User", "Get", "p"),
        "package entrypoints\n\nimport (\n    userh \"p/src/entrypoints/rest/user\"\n)\n\ntype UserContainer struct {\n    Get Userh.Get\n}\n\nfunc NewUserContainer(Get Userh.Get) UserContainer {\n    return UserContainer{\n        Get: Get,\n    }\n}\n"
    );
}

#[test]
fn codes_content_literal() {
    assert_eq!(generate_codes_content("user"), "package user\n\nvar (\n    CodeSample = \"U1\"\n)\n");
}
