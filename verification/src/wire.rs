//! Registering a module's dependencies in the Wire injector file
//! (`src/infrastructure/dependencies/wire.go`).
use vstd::prelude::*;
use crate::edit::{
    insert_at, insert_seq, is_subseq, lemma_insert_keeps, lemma_subseq_concat,
    lemma_subseq_empty, lemma_subseq_refl, lemma_subseq_trans, result_view, EditError,
};
use crate::naming::{camel_to_snake_case, capitalize_first_letter, capitalized, snake_case};
use crate::search::{
    contains_seq, find_first, find_from, find_seq, find_seq_from, lemma_find_from,
    lemma_rfind_char_before, rfind_char, rfind_char_before,
};
use crate::text::{from_chars, to_chars};

verus! {

/// Where a new import goes: at the last line break before the first `)`
/// (or at that `)` when no line break precedes it), or at the very start
/// when the file has no `)`.
pub open spec fn wire_import_position(content: Seq<char>) -> int {
    match find_first(content, ")"@) {
        Some(close) => match rfind_char_before(content, '\n', close) {
            Some(nl) => nl,
            None => close,
        },
        None => 0,
    }
}

/// `content` with `import_line` added as a new import line.
pub open spec fn with_wire_import(content: Seq<char>, import_line: Seq<char>) -> Seq<char> {
    insert_at(content, wire_import_position(content), "\n\t"@ + import_line)
}

/// The anchor before which a new builder is listed in the injector.
pub open spec fn wire_build_anchor() -> Seq<char> {
    "wire.Struct(new(WebHandlerContainer), \"*\"),"@
}

/// The injector with the module's builder listed before the web handler
/// container, when that entry is there.
pub open spec fn with_builder_reference(content: Seq<char>, module_container: Seq<char>) -> Seq<char> {
    match find_first(content, wire_build_anchor()) {
        Some(pos) => insert_at(content, pos, "\n\t\tbuild"@ + module_container + "Container,\n\t\t"@),
        None => content,
    }
}

/// The providers of a new endpoint, as listed in a builder.
pub open spec fn builder_providers(module_import: Seq<char>, endpoint: Seq<char>) -> Seq<char> {
    "\t\t"@ + module_import + "h.New"@ + endpoint + ",\n\t\t"@ + module_import + "uc.New"@ + endpoint
        + ",\n\t\t"@
}

/// Whether adding to the existing builder fails: the builder calls
/// `wire.Build(` with no `repositorySet,` after it.
pub open spec fn existing_builder_unanchored(content: Seq<char>, module_container: Seq<char>) -> bool {
    match find_first(content, "func build"@ + module_container + "Container"@) {
        Some(pos) => match find_from(content, "wire.Build("@, pos) {
            Some(build) => find_from(content, "repositorySet,"@, build) is None,
            None => false,
        },
        None => false,
    }
}

/// The module's existing builder with the new endpoint's providers added
/// before its `repositorySet,`; unchanged when there is no such builder or
/// it has no `wire.Build(`.
pub open spec fn with_existing_builder(
    content: Seq<char>,
    module_import: Seq<char>,
    endpoint: Seq<char>,
    module_container: Seq<char>,
) -> Seq<char>
    recommends
        !existing_builder_unanchored(content, module_container),
{
    match find_first(content, "func build"@ + module_container + "Container"@) {
        Some(pos) => match find_from(content, "wire.Build("@, pos) {
            Some(build) => insert_at(
                content,
                find_from(content, "repositorySet,"@, build)->0,
                builder_providers(module_import, endpoint),
            ),
            None => content,
        },
        None => content,
    }
}

/// A new builder function's text up to its `repositorySet,`: the
/// signature, `wire.Build(` and the providers of the module's container and
/// of its first endpoint.
#[verifier::opaque]
pub open spec fn builder_head(module_import: Seq<char>, module_container: Seq<char>, endpoint: Seq<char>) -> Seq<char> {
    builder_opening(module_container) + "wire.Build("@ + "\n\t\tentrypoints.New"@ + module_container
        + "Container"@ + ",\n\t\t"@ + module_import + "h.New"@ + endpoint + ",\n\t\t"@
        + module_import + "uc.New"@ + endpoint + ",\n\t\t"@
}

/// A new builder function's text before its `wire.Build(`.
#[verifier::opaque]
pub open spec fn builder_opening(module_container: Seq<char>) -> Seq<char> {
    "\n\n"@ + "func build"@ + module_container + "Container"@
        + "(conf *config.Config, logger *zap.Logger, db *gorm.DB) entrypoints."@ + module_container
        + "Container"@ + " {\n\t"@
}

/// A new builder function for a module with one endpoint.
pub open spec fn builder_function(module_import: Seq<char>, module_container: Seq<char>, endpoint: Seq<char>) -> Seq<char> {
    builder_head(module_import, module_container, endpoint) + "repositorySet,"@
        + "\n\t)\n\treturn entrypoints."@ + module_container + "Container{}\n}"@
}

/// The import of a module's use case package.
pub open spec fn usecase_import(module_import: Seq<char>, project_name: Seq<char>) -> Seq<char> {
    module_import + "uc \""@ + project_name + "/src/core/usecases/"@ + module_import + "\""@
}

/// The import of a module's REST handler package.
pub open spec fn rest_import(module_import: Seq<char>, project_name: Seq<char>) -> Seq<char> {
    module_import + "h \""@ + project_name + "/src/entrypoints/rest/"@ + module_import + "\""@
}

/// `content` with `import_line` added unless it is already there.
pub open spec fn ensure_import(content: Seq<char>, import_line: Seq<char>) -> Seq<char> {
    if contains_seq(content, import_line) {
        content
    } else {
        with_wire_import(content, import_line)
    }
}

/// The injector with both imports of the module, added where missing.
pub open spec fn wire_with_imports(content: Seq<char>, module: Seq<char>, project_name: Seq<char>) -> Seq<char> {
    let mi = snake_case(module);
    ensure_import(ensure_import(content, usecase_import(mi, project_name)), rest_import(mi, project_name))
}

/// The injector with the new endpoint registered: both imports of the
/// module (when missing), then either the endpoint added to the module's
/// existing builder, or a new builder listed and defined.
pub open spec fn wire_edit(
    content: Seq<char>,
    module: Seq<char>,
    endpoint: Seq<char>,
    project_name: Seq<char>,
) -> Result<Seq<char>, EditError> {
    let mi = snake_case(module);
    let mc = capitalized(module);
    let c2 = wire_with_imports(content, module, project_name);
    if contains_seq(c2, "build"@ + mc + "Container"@) {
        if existing_builder_unanchored(c2, mc) {
            Err(EditError::MissingRepositorySet)
        } else {
            Ok(with_existing_builder(c2, mi, endpoint, mc))
        }
    } else {
        Ok(with_builder_reference(c2, mc) + builder_function(mi, mc, endpoint))
    }
}

/// Adds `import_line` to the import block, on a new line before the line
/// that holds the first `)`.
pub fn add_wire_import(content: &str, import_line: &str) -> (r: String)
    ensures
        r@ == with_wire_import(content@, import_line@),
{
    let chars = to_chars(content);
    let close = to_chars(")");
    let import_end = match find_seq(&chars, &close) {
        Some(i) => {
            proof {
                lemma_find_from(chars@, close@, 0);
            }
            match rfind_char(&chars, '\n', i) {
                Some(nl) => nl,
                None => i,
            }
        },
        None => 0,
    };
    proof {
        lemma_find_from(chars@, close@, 0);
        if let Some(i) = find_first(chars@, close@) {
            lemma_rfind_char_before(chars@, '\n', i);
        }
    }
    let mut line = String::new();
    line.append("\n\t");
    line.append(import_line);
    let line_chars = to_chars(line.as_str());
    from_chars(&insert_seq(&chars, import_end, &line_chars))
}

/// Lists the module's builder in the injector, before the web handler
/// container entry; unchanged when that entry is missing.
pub fn add_builder_to_wire_build(content: &str, module_container: &str) -> (r: String)
    ensures
        r@ == with_builder_reference(content@, module_container@),
{
    let chars = to_chars(content);
    let anchor = to_chars("wire.Struct(new(WebHandlerContainer), \"*\"),");
    match find_seq(&chars, &anchor) {
        Some(pos) => {
            proof {
                lemma_find_from(chars@, anchor@, 0);
            }
            let mut reference = String::new();
            reference.append("\n\t\tbuild");
            reference.append(module_container);
            reference.append("Container,\n\t\t");
            let reference_chars = to_chars(reference.as_str());
            from_chars(&insert_seq(&chars, pos, &reference_chars))
        },
        None => from_chars(&chars),
    }
}

/// Adds the new endpoint's providers to the module's existing builder,
/// before its `repositorySet,`.
pub fn add_to_existing_builder(content: &str, module_import: &str, endpoint: &str, module_container: &str) -> (r: String)
    requires
        !existing_builder_unanchored(content@, module_container@),
    ensures
        r@ == with_existing_builder(content@, module_import@, endpoint@, module_container@),
{
    let chars = to_chars(content);
    let mut name = String::new();
    name.append("func build");
    name.append(module_container);
    name.append("Container");
    let name_chars = to_chars(name.as_str());
    let pos = match find_seq(&chars, &name_chars) {
        Some(p) => p,
        None => return from_chars(&chars),
    };
    let build_call = to_chars("wire.Build(");
    let build = match find_seq_from(&chars, &build_call, pos) {
        Some(b) => b,
        None => return from_chars(&chars),
    };
    let anchor = to_chars("repositorySet,");
    let repository = match find_seq_from(&chars, &anchor, build) {
        Some(q) => q,
        None => return from_chars(&chars),
    };
    proof {
        lemma_find_from(chars@, anchor@, build as int);
    }
    let mut providers = String::new();
    providers.append("\t\t");
    providers.append(module_import);
    providers.append("h.New");
    providers.append(endpoint);
    providers.append(",\n\t\t");
    providers.append(module_import);
    providers.append("uc.New");
    providers.append(endpoint);
    providers.append(",\n\t\t");
    let providers_chars = to_chars(providers.as_str());
    from_chars(&insert_seq(&chars, repository, &providers_chars))
}

/// Appends a new builder function for the module, with one endpoint.
pub fn add_new_builder_function(content: &str, module_import: &str, module_container: &str, endpoint: &str) -> (r: String)
    ensures
        r@ == content@ + builder_function(module_import@, module_container@, endpoint@),
{
    let mut r = String::new();
    r.append(content);
    r.append("\n\n");
    r.append("func build");
    r.append(module_container);
    r.append("Container");
    r.append("(conf *config.Config, logger *zap.Logger, db *gorm.DB) entrypoints.");
    r.append(module_container);
    r.append("Container");
    r.append(" {\n\t");
    r.append("wire.Build(");
    r.append("\n\t\tentrypoints.New");
    r.append(module_container);
    r.append("Container");
    r.append(",\n\t\t");
    r.append(module_import);
    r.append("h.New");
    r.append(endpoint);
    r.append(",\n\t\t");
    r.append(module_import);
    r.append("uc.New");
    r.append(endpoint);
    r.append(",\n\t\t");
    r.append("repositorySet,");
    r.append("\n\t)\n\treturn entrypoints.");
    r.append(module_container);
    r.append("Container{}\n}");
    proof {
        reveal(builder_head);
        reveal(builder_opening);
    }
    r
}

fn ensure_import_exec(content: String, import_line: &String) -> (r: String)
    ensures
        r@ == ensure_import(content@, import_line@),
{
    let chars = to_chars(content.as_str());
    let line_chars = to_chars(import_line.as_str());
    if find_seq(&chars, &line_chars).is_some() {
        content
    } else {
        add_wire_import(content.as_str(), import_line.as_str())
    }
}

fn existing_builder_unanchored_exec(content: &str, module_container: &str) -> (r: bool)
    ensures
        r == existing_builder_unanchored(content@, module_container@),
{
    let chars = to_chars(content);
    let mut name = String::new();
    name.append("func build");
    name.append(module_container);
    name.append("Container");
    let name_chars = to_chars(name.as_str());
    match find_seq(&chars, &name_chars) {
        Some(pos) => match find_seq_from(&chars, &to_chars("wire.Build("), pos) {
            Some(build) => find_seq_from(&chars, &to_chars("repositorySet,"), build).is_none(),
            None => false,
        },
        None => false,
    }
}

/// Registers the new endpoint (`endpoint`, already capitalised) of `module`
/// in the injector: adds the module's imports when missing, then adds the
/// endpoint to the module's existing builder, or lists and defines a new
/// builder for the module.
pub fn update_wire_content(content: &str, module: &str, endpoint: &str, project_name: &str) -> (r: Result<String, EditError>)
    ensures
        result_view(r) == wire_edit(content@, module@, endpoint@, project_name@),
{
    let module_import = camel_to_snake_case(module);
    let module_container = capitalize_first_letter(module);
    let mut usecase = String::new();
    usecase.append(module_import.as_str());
    usecase.append("uc \"");
    usecase.append(project_name);
    usecase.append("/src/core/usecases/");
    usecase.append(module_import.as_str());
    usecase.append("\"");
    let c1 = ensure_import_exec(String::from_str(content), &usecase);
    let mut rest = String::new();
    rest.append(module_import.as_str());
    rest.append("h \"");
    rest.append(project_name);
    rest.append("/src/entrypoints/rest/");
    rest.append(module_import.as_str());
    rest.append("\"");
    let c2 = ensure_import_exec(c1, &rest);
    let mut builder_name = String::new();
    builder_name.append("build");
    builder_name.append(module_container.as_str());
    builder_name.append("Container");
    let c2_chars = to_chars(c2.as_str());
    let name_chars = to_chars(builder_name.as_str());
    if find_seq(&c2_chars, &name_chars).is_some() {
        if existing_builder_unanchored_exec(c2.as_str(), module_container.as_str()) {
            return Err(EditError::MissingRepositorySet);
        }
        Ok(add_to_existing_builder(c2.as_str(), module_import.as_str(), endpoint, module_container.as_str()))
    } else {
        let c3 = add_builder_to_wire_build(c2.as_str(), module_container.as_str());
        Ok(add_new_builder_function(c3.as_str(), module_import.as_str(), module_container.as_str(), endpoint))
    }
}

proof fn lemma_ensure_import_keeps(content: Seq<char>, import_line: Seq<char>)
    ensures
        is_subseq(content, ensure_import(content, import_line)),
{
    if contains_seq(content, import_line) {
        lemma_subseq_refl(content);
    } else {
        lemma_find_from(content, ")"@, 0);
        if let Some(close) = find_first(content, ")"@) {
            lemma_rfind_char_before(content, '\n', close);
        }
        lemma_insert_keeps(content, wire_import_position(content), "\n\t"@ + import_line);
    }
}

proof fn lemma_found_insert_keeps(content: Seq<char>, pat: Seq<char>, start: int, ins: Seq<char>)
    requires
        0 <= start,
        find_from(content, pat, start) is Some,
    ensures
        is_subseq(content, insert_at(content, find_from(content, pat, start)->0, ins)),
{
    lemma_find_from(content, pat, start);
    lemma_insert_keeps(content, find_from(content, pat, start)->0, ins);
}

/// An import is added at most once: ensuring it a second time changes
/// nothing.
pub proof fn law_wire_import_added_once(content: Seq<char>, import_line: Seq<char>)
    ensures
        ensure_import(ensure_import(content, import_line), import_line) == ensure_import(
            content,
            import_line,
        ),
{
    if !contains_seq(content, import_line) {
        lemma_find_from(content, ")"@, 0);
        if let Some(close) = find_first(content, ")"@) {
            lemma_rfind_char_before(content, '\n', close);
        }
        crate::edit::lemma_inserted_is_contained(
            content,
            wire_import_position(content),
            "\n\t"@,
            import_line,
            Seq::empty(),
        );
        assert("\n\t"@ + import_line + Seq::<char>::empty() =~= "\n\t"@ + import_line);
    }
}

/// Registering an endpoint in the injector never removes text: the
/// file before the edit is a subsequence of the file after it.
pub proof fn law_wire_edit_keeps_content(
    content: Seq<char>,
    module: Seq<char>,
    endpoint: Seq<char>,
    project_name: Seq<char>,
)
    ensures
        wire_edit(content, module, endpoint, project_name) matches Ok(r) ==> is_subseq(content, r),
{
    let mi = snake_case(module);
    let mc = capitalized(module);
    let c1 = ensure_import(content, usecase_import(mi, project_name));
    let c2 = ensure_import(c1, rest_import(mi, project_name));
    lemma_ensure_import_keeps(content, usecase_import(mi, project_name));
    lemma_ensure_import_keeps(c1, rest_import(mi, project_name));
    lemma_subseq_trans(content, c1, c2);
    if contains_seq(c2, "build"@ + mc + "Container"@) {
        if !existing_builder_unanchored(c2, mc) {
            let name = "func build"@ + mc + "Container"@;
            match find_first(c2, name) {
                Some(pos) => {
                    lemma_find_from(c2, name, 0);
                    match find_from(c2, "wire.Build("@, pos) {
                        Some(build) => {
                            lemma_find_from(c2, "wire.Build("@, pos);
                            lemma_found_insert_keeps(c2, "repositorySet,"@, build, builder_providers(mi, endpoint));
                        },
                        None => {
                            lemma_subseq_refl(c2);
                        },
                    }
                },
                None => {
                    lemma_subseq_refl(c2);
                },
            }
            lemma_subseq_trans(content, c2, with_existing_builder(c2, mi, endpoint, mc));
        }
    } else {
        let c3 = with_builder_reference(c2, mc);
        match find_first(c2, wire_build_anchor()) {
            Some(pos) => {
                lemma_found_insert_keeps(c2, wire_build_anchor(), 0, "\n\t\tbuild"@ + mc + "Container,\n\t\t"@);
            },
            None => {
                lemma_subseq_refl(c2);
            },
        }
        lemma_subseq_refl(c3);
        lemma_subseq_empty(builder_function(mi, mc, endpoint));
        lemma_subseq_concat(c3, c3, Seq::empty(), builder_function(mi, mc, endpoint));
        assert(c3 + Seq::<char>::empty() =~= c3);
        lemma_subseq_trans(content, c2, c3);
        lemma_subseq_trans(content, c3, c3 + builder_function(mi, mc, endpoint));
    }
}

} // verus!
