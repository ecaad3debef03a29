//! Everything a new endpoint needs, computed from the names the user gave:
//! the file names and the contents of the files that are created.
use vstd::prelude::*;
use crate::naming::{camel_to_snake_case, capitalize_first_letter, capitalized, snake_case};
use crate::template::{
    codes_content, container_content, errors_content, generate_codes_content,
    generate_container_content, generate_errors_content, generate_rest_content,
    generate_test_content, generate_usecase_content, rest_content, test_content, usecase_content,
};

verus! {

/// The names and contents of the files generated for a new endpoint.
pub struct EndpointPlan {
    /// The endpoint name with its first letter capitalised (the Go type name).
    pub endpoint_type: String,
    /// The module name in snake_case: the package directory under the use
    /// case and REST roots.
    pub module_dir: String,
    /// The use case and REST handler file name: `<endpoint_snake>.go`.
    pub endpoint_file: String,
    /// The use case test file name: `<endpoint_snake>_test.go`.
    pub test_file: String,
    /// The module container file name: `<module_snake>.go`.
    pub container_file: String,
    pub usecase_content: String,
    pub test_content: String,
    pub errors_content: String,
    pub rest_content: String,
    pub codes_content: String,
    /// The contents of a new container file, for a module that has none.
    pub container_content: String,
}

fn with_suffix(name: &String, suffix: &str) -> (r: String)
    ensures
        r@ == name@ + suffix@,
{
    let mut r = name.clone();
    r.append(suffix);
    r
}

/// The file names and contents for endpoint `endpoint` of module `module`
/// in the Go project `project_name`.
pub fn plan_endpoint(module: &str, endpoint: &str, project_name: &str) -> (r: EndpointPlan)
    ensures
        r.endpoint_type@ == capitalized(endpoint@),
        r.module_dir@ == snake_case(module@),
        r.endpoint_file@ == snake_case(endpoint@) + ".go"@,
        r.test_file@ == snake_case(endpoint@) + "_test.go"@,
        r.container_file@ == snake_case(module@) + ".go"@,
        r.usecase_content@ == usecase_content(module@, capitalized(endpoint@)),
        r.test_content@ == test_content(module@, capitalized(endpoint@)),
        r.errors_content@ == errors_content(module@),
        r.rest_content@ == rest_content(module@, capitalized(endpoint@), project_name@),
        r.codes_content@ == codes_content(module@),
        r.container_content@ == container_content(module@, capitalized(endpoint@), project_name@),
{
    let endpoint_type = capitalize_first_letter(endpoint);
    let module_dir = camel_to_snake_case(module);
    let endpoint_snake = camel_to_snake_case(endpoint);
    let endpoint_file = with_suffix(&endpoint_snake, ".go");
    let test_file = with_suffix(&endpoint_snake, "_test.go");
    let container_file = with_suffix(&module_dir, ".go");
    let usecase_content = generate_usecase_content(module, endpoint_type.as_str());
    let test_content = generate_test_content(module, endpoint_type.as_str());
    let errors_content = generate_errors_content(module);
    let rest_content = generate_rest_content(module, endpoint_type.as_str(), project_name);
    let codes_content = generate_codes_content(module);
    let container_content = generate_container_content(module, endpoint_type.as_str(), project_name);
    EndpointPlan {
        endpoint_type,
        module_dir,
        endpoint_file,
        test_file,
        container_file,
        usecase_content,
        test_content,
        errors_content,
        rest_content,
        codes_content,
        container_content,
    }
}

} // verus!
