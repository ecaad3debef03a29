//! File templates for a new endpoint: use case, test, errors, REST
//! handler, error codes and module container.
use vstd::prelude::*;
use crate::gomod::starts_with;
use crate::naming::{camel_to_snake_case, snake_case};

verus! {

/// The use case file: the interface, its request and response types, and an implementation that validates the request.
pub open spec fn usecase_content(module: Seq<char>, endpoint: Seq<char>) -> Seq<char> {
    "package "@
        + module
        + "\n\nimport (\n\t\"context\"\n\t\"go.uber.org/zap\"\n)\n\ntype "@
        + endpoint
        + " interface {\n\tExecute(ctx context.Context, request "@
        + endpoint
        + "Request) (*"@
        + endpoint
        + "Response, error)\n}\n\ntype "@
        + endpoint
        + "Request struct {\n}\n\nfunc (req "@
        + endpoint
        + "Request) Validate() error {\n\treturn nil\n}\n\ntype "@
        + endpoint
        + "Response struct {\n}\n\ntype "@
        + endpoint
        + "Impl struct {\n\tlogger *zap.Logger\n}\n\nfunc New"@
        + endpoint
        + "(\n\tlogger *zap.Logger,\n) "@
        + endpoint
        + " {\n\treturn &"@
        + endpoint
        + "Impl{\n\t\tlogger: logger,\n\t}\n}\n\nfunc (uc *"@
        + endpoint
        + "Impl) Execute(ctx context.Context, request "@
        + endpoint
        + "Request) (*"@
        + endpoint
        + "Response, error) {\n\tif err := request.Validate(); err != nil {\n\t\treturn nil, err\n\t}\n\n\treturn &"@
        + endpoint
        + "Response{}, nil\n}\n"@
}

/// The use case file: the interface, its request and response types, and an implementation that validates the request.
pub fn generate_usecase_content(module: &str, endpoint: &str) -> (r: String)
    ensures
        r@ == usecase_content(module@, endpoint@),
{
    let mut r = String::new();
    r.append("package ");
    r.append(module);
    r.append("\n\nimport (\n\t\"context\"\n\t\"go.uber.org/zap\"\n)\n\ntype ");
    r.append(endpoint);
    r.append(" interface {\n\tExecute(ctx context.Context, request ");
    r.append(endpoint);
    r.append("Request) (*");
    r.append(endpoint);
    r.append("Response, error)\n}\n\ntype ");
    r.append(endpoint);
    r.append("Request struct {\n}\n\nfunc (req ");
    r.append(endpoint);
    r.append("Request) Validate() error {\n\treturn nil\n}\n\ntype ");
    r.append(endpoint);
    r.append("Response struct {\n}\n\ntype ");
    r.append(endpoint);
    r.append("Impl struct {\n\tlogger *zap.Logger\n}\n\nfunc New");
    r.append(endpoint);
    r.append("(\n\tlogger *zap.Logger,\n) ");
    r.append(endpoint);
    r.append(" {\n\treturn &");
    r.append(endpoint);
    r.append("Impl{\n\t\tlogger: logger,\n\t}\n}\n\nfunc (uc *");
    r.append(endpoint);
    r.append("Impl) Execute(ctx context.Context, request ");
    r.append(endpoint);
    r.append("Request) (*");
    r.append(endpoint);
    r.append("Response, error) {\n\tif err := request.Validate(); err != nil {\n\t\treturn nil, err\n\t}\n\n\treturn &");
    r.append(endpoint);
    r.append("Response{}, nil\n}\n");
    r
}

/// The test file of a use case: one test that runs it on an empty request.
pub open spec fn test_content(module: Seq<char>, endpoint: Seq<char>) -> Seq<char> {
    "package "@
        + module
        + "\n\nimport (\n    \"context\"\n    \"testing\"\n    \"go.uber.org/zap\"\n    \"github.com/stretchr/testify/assert\"\n)\n\nfunc Test"@
        + endpoint
        + "_ValidRequest(t *testing.T) {\n    ctx := context.Background()\n    logger := zap.NewNop()\n    uc := New"@
        + endpoint
        + "(logger)\n    \n    resp, err := uc.Execute(ctx, "@
        + endpoint
        + "Request{})\n\n    assert.NoError(t, err)\n}\n"@
}

/// The test file of a use case: one test that runs it on an empty request.
pub fn generate_test_content(module: &str, endpoint: &str) -> (r: String)
    ensures
        r@ == test_content(module@, endpoint@),
{
    let mut r = String::new();
    r.append("package ");
    r.append(module);
    r.append("\n\nimport (\n    \"context\"\n    \"testing\"\n    \"go.uber.org/zap\"\n    \"github.com/stretchr/testify/assert\"\n)\n\nfunc Test");
    r.append(endpoint);
    r.append("_ValidRequest(t *testing.T) {\n    ctx := context.Background()\n    logger := zap.NewNop()\n    uc := New");
    r.append(endpoint);
    r.append("(logger)\n    \n    resp, err := uc.Execute(ctx, ");
    r.append(endpoint);
    r.append("Request{})\n\n    assert.NoError(t, err)\n}\n");
    r
}

/// The errors file of a use case package.
pub open spec fn errors_content(module: Seq<char>) -> Seq<char> {
    "package "@
        + module
        + "\n\nimport \"errors\"\n\nvar (\n    ErrSample = errors.New(\"sample error\")\n)\n"@
}

/// The errors file of a use case package.
pub fn generate_errors_content(module: &str) -> (r: String)
    ensures
        r@ == errors_content(module@),
{
    let mut r = String::new();
    r.append("package ");
    r.append(module);
    r.append("\n\nimport \"errors\"\n\nvar (\n    ErrSample = errors.New(\"sample error\")\n)\n");
    r
}

/// The error codes file of a REST handler package.
pub open spec fn codes_content(module: Seq<char>) -> Seq<char> {
    "package "@
        + module
        + "\n\nvar (\n    CodeSample = \"U1\"\n)\n"@
}

/// The error codes file of a REST handler package.
pub fn generate_codes_content(module: &str) -> (r: String)
    ensures
        r@ == codes_content(module@),
{
    let mut r = String::new();
    r.append("package ");
    r.append(module);
    r.append("\n\nvar (\n    CodeSample = \"U1\"\n)\n");
    r
}

/// The REST handler file: a gin handler that binds the request, runs the use case and maps its errors.
pub open spec fn rest_content(module: Seq<char>, endpoint: Seq<char>, project_name: Seq<char>) -> Seq<char> {
    "package "@
        + module
        + "\n\nimport (\n    \"errors\"\n    \"net/http\"\n\n    \"github.com/gin-gonic/gin\"\n    \"go.uber.org/zap\"\n    \""@
        + project_name
        + "/src/core/entities\"\n    \""@
        + project_name
        + "/src/core/usecases/"@
        + snake_case(module)
        + "\"\n    \""@
        + project_name
        + "/src/entrypoints/rest\"\n)\n\ntype "@
        + endpoint
        + " struct {\n    useCase "@
        + module
        + "."@
        + endpoint
        + "\n    logger  *zap.Logger\n}\n\ntype "@
        + endpoint
        + "Response struct {\n}\n\nfunc New"@
        + endpoint
        + "(useCase "@
        + module
        + "."@
        + endpoint
        + ", logger *zap.Logger) "@
        + endpoint
        + " {\n    return "@
        + endpoint
        + "{useCase: useCase, logger: logger}\n}\n\nfunc (h "@
        + endpoint
        + ") Handle() gin.HandlerFunc {\n    return func(c *gin.Context) {\n        req, err := h.bindRequest(c)\n\n        if err != nil {\n            c.JSON(http.StatusBadRequest, rest.Errf(\"U0\", \"failed to bind request\"))\n            return\n        }\n\n        resp, err := h.useCase.Execute(c, req)\n\n        if err != nil {\n            status, code, message := rest.ErrResponse()\n            switch {\n            case errors.Is(err, "@
        + module
        + ".ErrSample):\n                status, code, message = http.StatusBadRequest, CodeSample, \"sample api error\"\n\n            default:\n                h.logger.Error(\""@
        + endpoint
        + " failed\", zap.Error(err), zap.Any(\"request\", req))\n            }\n\n            c.JSON(status, rest.Errf(code, message))\n            return\n        }\n\n        c.JSON(http.StatusOK, "@
        + endpoint
        + "Response{})\n    }\n}\n\nfunc (h "@
        + endpoint
        + ") bindRequest(c *gin.Context) ("@
        + module
        + "."@
        + endpoint
        + "Request, error) {\n    var req "@
        + module
        + "."@
        + endpoint
        + "Request\n\n    return req, nil\n}\n"@
}

/// The REST handler file: a gin handler that binds the request, runs the use case and maps its errors.
pub fn generate_rest_content(module: &str, endpoint: &str, project_name: &str) -> (r: String)
    ensures
        r@ == rest_content(module@, endpoint@, project_name@),
{
    let import_module = camel_to_snake_case(module);
    let mut r = String::new();
    r.append("package ");
    r.append(module);
    r.append("\n\nimport (\n    \"errors\"\n    \"net/http\"\n\n    \"github.com/gin-gonic/gin\"\n    \"go.uber.org/zap\"\n    \"");
    r.append(project_name);
    r.append("/src/core/entities\"\n    \"");
    r.append(project_name);
    r.append("/src/core/usecases/");
    r.append(&import_module);
    r.append("\"\n    \"");
    r.append(project_name);
    r.append("/src/entrypoints/rest\"\n)\n\ntype ");
    r.append(endpoint);
    r.append(" struct {\n    useCase ");
    r.append(module);
    r.append(".");
    r.append(endpoint);
    r.append("\n    logger  *zap.Logger\n}\n\ntype ");
    r.append(endpoint);
    r.append("Response struct {\n}\n\nfunc New");
    r.append(endpoint);
    r.append("(useCase ");
    r.append(module);
    r.append(".");
    r.append(endpoint);
    r.append(", logger *zap.Logger) ");
    r.append(endpoint);
    r.append(" {\n    return ");
    r.append(endpoint);
    r.append("{useCase: useCase, logger: logger}\n}\n\nfunc (h ");
    r.append(endpoint);
    r.append(") Handle() gin.HandlerFunc {\n    return func(c *gin.Context) {\n        req, err := h.bindRequest(c)\n\n        if err != nil {\n            c.JSON(http.StatusBadRequest, rest.Errf(\"U0\", \"failed to bind request\"))\n            return\n        }\n\n        resp, err := h.useCase.Execute(c, req)\n\n        if err != nil {\n            status, code, message := rest.ErrResponse()\n            switch {\n            case errors.Is(err, ");
    r.append(module);
    r.append(".ErrSample):\n                status, code, message = http.StatusBadRequest, CodeSample, \"sample api error\"\n\n            default:\n                h.logger.Error(\"");
    r.append(endpoint);
    r.append(" failed\", zap.Error(err), zap.Any(\"request\", req))\n            }\n\n            c.JSON(status, rest.Errf(code, message))\n            return\n        }\n\n        c.JSON(http.StatusOK, ");
    r.append(endpoint);
    r.append("Response{})\n    }\n}\n\nfunc (h ");
    r.append(endpoint);
    r.append(") bindRequest(c *gin.Context) (");
    r.append(module);
    r.append(".");
    r.append(endpoint);
    r.append("Request, error) {\n    var req ");
    r.append(module);
    r.append(".");
    r.append(endpoint);
    r.append("Request\n\n    return req, nil\n}\n");
    r
}

/// A new container file for a module, holding one handler.
#[verifier::opaque]
pub open spec fn container_content(module: Seq<char>, endpoint: Seq<char>, project_name: Seq<char>) -> Seq<char> {
    "package entrypoints\n\nimport (\n    "@
        + snake_case(module)
        + "h \""@
        + project_name
        + "/src/entrypoints/rest/"@
        + snake_case(module)
        + "\"\n)\n\ntype "@
        + module
        + "Container struct {\n    "@
        + endpoint
        + " "@
        + module
        + "h."@
        + endpoint
        + "\n}\n\nfunc New"@
        + module
        + "Container("@
        + endpoint
        + " "@
        + module
        + "h."@
        + endpoint
        + ") "@
        + module
        + "Container {\n    return "@
        + module
        + "Container{\n        "@
        + endpoint
        + ": "@
        + endpoint
        + ",\n    }\n}\n"@
}

/// A new container file for a module, holding one handler.
pub fn generate_container_content(module: &str, endpoint: &str, project_name: &str) -> (r: String)
    ensures
        r@ == container_content(module@, endpoint@, project_name@),
{
    let import_module = camel_to_snake_case(module);
    let mut r = String::new();
    proof {
        reveal(container_content);
    }
    r.append("package entrypoints\n\nimport (\n    ");
    r.append(&import_module);
    r.append("h \"");
    r.append(project_name);
    r.append("/src/entrypoints/rest/");
    r.append(&import_module);
    r.append("\"\n)\n\ntype ");
    r.append(module);
    r.append("Container struct {\n    ");
    r.append(endpoint);
    r.append(" ");
    r.append(module);
    r.append("h.");
    r.append(endpoint);
    r.append("\n}\n\nfunc New");
    r.append(module);
    r.append("Container(");
    r.append(endpoint);
    r.append(" ");
    r.append(module);
    r.append("h.");
    r.append(endpoint);
    r.append(") ");
    r.append(module);
    r.append("Container {\n    return ");
    r.append(module);
    r.append("Container{\n        ");
    r.append(endpoint);
    r.append(": ");
    r.append(endpoint);
    r.append(",\n    }\n}\n");
    r
}
/// The package clause that a Go file of package `module` begins with.
pub open spec fn package_clause(module: Seq<char>) -> Seq<char> {
    "package "@ + module + "\n"@
}

/// The use case file, its test and the errors file of a module all declare
/// the same package, the module's name as given, and so does the error
/// codes file.
pub proof fn law_usecase_files_share_package(module: Seq<char>, endpoint: Seq<char>)
    ensures
        starts_with(usecase_content(module, endpoint), package_clause(module)),
        starts_with(test_content(module, endpoint), package_clause(module)),
        starts_with(errors_content(module), package_clause(module)),
        starts_with(codes_content(module), package_clause(module)),
{
    lemma_usecase_package(module, endpoint);
    lemma_test_package(module, endpoint);
    lemma_errors_package(module);
    lemma_codes_package(module);
}

proof fn lemma_usecase_package(module: Seq<char>, endpoint: Seq<char>)
    ensures
        starts_with(usecase_content(module, endpoint), package_clause(module)),
{
    reveal_strlit("package ");
    reveal_strlit("\n");
    reveal_strlit("\n\nimport (\n\t\"context\"\n\t\"go.uber.org/zap\"\n)\n\ntype ");
    let pc = package_clause(module);
    assert(usecase_content(module, endpoint).take(pc.len() as int) =~= pc);
}

proof fn lemma_test_package(module: Seq<char>, endpoint: Seq<char>)
    ensures
        starts_with(test_content(module, endpoint), package_clause(module)),
{
    reveal_strlit("package ");
    reveal_strlit("\n");
    reveal_strlit("\n\nimport (\n    \"context\"\n    \"testing\"\n    \"go.uber.org/zap\"\n    \"github.com/stretchr/testify/assert\"\n)\n\nfunc Test");
    let pc = package_clause(module);
    assert(test_content(module, endpoint).take(pc.len() as int) =~= pc);
}

proof fn lemma_errors_package(module: Seq<char>)
    ensures
        starts_with(errors_content(module), package_clause(module)),
{
    reveal_strlit("package ");
    reveal_strlit("\n");
    reveal_strlit("\n\nimport \"errors\"\n\nvar (\n    ErrSample = errors.New(\"sample error\")\n)\n");
    let pc = package_clause(module);
    assert(errors_content(module).take(pc.len() as int) =~= pc);
}

proof fn lemma_codes_package(module: Seq<char>)
    ensures
        starts_with(codes_content(module), package_clause(module)),
{
    reveal_strlit("package ");
    reveal_strlit("\n");
    reveal_strlit("\n\nvar (\n    CodeSample = \"U1\"\n)\n");
    let pc = package_clause(module);
    assert(codes_content(module).take(pc.len() as int) =~= pc);
}


} // verus!
