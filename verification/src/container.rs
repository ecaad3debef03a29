//! Registering a new handler in an existing module container file
//! (`src/entrypoints/<module>.go`).
use vstd::prelude::*;
use crate::edit::{
    insert_at, insert_seq, is_subseq, lemma_insert_keeps, lemma_replace_all_keeps,
    lemma_subseq_concat, lemma_subseq_empty, lemma_subseq_refl, lemma_subseq_trans, replace_all,
    replace_seq, result_view, EditError,
};
use crate::naming::{camel_to_snake_case, snake_case};
use crate::paren_list::{first_paren_list, lemma_first_paren_list_absent, lemma_first_paren_list_found};
use crate::pattern::{
    compile_pattern, first_match, is_ascii_word_char, is_literal_text, paren_list_regex, regex_accepts,
    regex_first_match,
};
use crate::wire_laws::is_word;
use crate::search::{contains_seq, find_first, find_from, find_seq, find_seq_from, lemma_find_from};
use crate::text::{from_chars, to_chars};

verus! {

/// The import of a module's REST handler package, as it appears in a
/// container file.
pub open spec fn handler_import(import_module: Seq<char>, project_name: Seq<char>) -> Seq<char> {
    import_module + "h \""@ + project_name + "/src/entrypoints/rest/"@ + import_module + "\""@
}

/// `content` with the REST handler import of `module` inserted before its
/// first `)`.
pub open spec fn with_handler_import(content: Seq<char>, module: Seq<char>, project_name: Seq<char>) -> Seq<char>
    recommends
        contains_seq(content, ")"@),
{
    insert_at(
        content,
        find_first(content, ")"@)->0,
        "    "@ + handler_import(module, project_name) + "\n"@,
    )
}

/// The container's field (and constructor parameter) for a handler.
pub open spec fn handler_member(module: Seq<char>, endpoint: Seq<char>) -> Seq<char> {
    endpoint + " "@ + module + "h."@ + endpoint
}

/// The regular expression that finds the container's constructor signature.
pub open spec fn constructor_pattern(module: Seq<char>) -> Seq<char> {
    "func New"@ + module + "Container\\((.*?)\\)"@
}

/// Step 1: the handler import, added when it is missing.
pub open spec fn container_import_step(content: Seq<char>, module: Seq<char>, project_name: Seq<char>) -> Result<Seq<char>, EditError> {
    let import_module = snake_case(module);
    if contains_seq(content, handler_import(import_module, project_name)) {
        Ok(content)
    } else if contains_seq(content, ")"@) {
        Ok(with_handler_import(content, import_module, project_name))
    } else {
        Err(EditError::MissingImportBlock)
    }
}

/// Step 2: the handler field, added before the `}` that closes the
/// container struct, when the struct is there.
pub open spec fn container_field_step(content: Seq<char>, module: Seq<char>, endpoint: Seq<char>) -> Result<Seq<char>, EditError> {
    match find_first(content, "type "@ + module + "Container struct {"@) {
        None => Ok(content),
        Some(start) => match find_from(content, "}"@, start) {
            None => Err(EditError::UnclosedStruct),
            Some(close) => Ok(
                insert_at(content, close, "\n"@ + "    "@ + handler_member(module, endpoint) + "\n"@),
            ),
        },
    }
}

/// The constructor signature with the handler added as its last parameter.
pub open spec fn extended_signature(signature: Seq<char>, module: Seq<char>, endpoint: Seq<char>) -> Seq<char> {
    let tail = ", "@ + handler_member(module, endpoint) + ")"@;
    if contains_seq(signature, ")"@) {
        replace_all(signature, ")"@, tail)
    } else {
        signature + tail
    }
}

/// Step 3, given the constructor signature that the pattern matched (if
/// any): every occurrence of that signature extended with the new
/// parameter, and the handler added to the `return` literal.
pub open spec fn container_constructor_step(
    content: Seq<char>,
    signature: Option<Seq<char>>,
    module: Seq<char>,
    endpoint: Seq<char>,
) -> Result<Seq<char>, EditError> {
    match signature {
        None => Ok(content),
        Some(sig) => {
            let replaced = replace_all(content, sig, extended_signature(sig, module, endpoint));
            match find_first(replaced, "return "@ + module + "Container{"@) {
                None => Ok(replaced),
                Some(start) => match find_from(replaced, "}"@, start) {
                    None => Err(EditError::UnclosedReturn),
                    Some(close) => Ok(
                        insert_at(
                            replaced,
                            close,
                            "\n        "@ + endpoint + ": "@ + endpoint + ",\n"@,
                        ),
                    ),
                },
            }
        },
    }
}

/// The matched text of a regular expression match.
pub open spec fn matched_text(m: Option<(Seq<char>, Seq<char>, Seq<char>)>) -> Option<Seq<char>> {
    match m {
        Some((_, b, _)) => Some(b),
        None => None,
    }
}

/// A module container file with a new handler registered: the import, the
/// struct field, the constructor parameter and the `return` entry.
pub open spec fn container_edit(
    content: Seq<char>,
    module: Seq<char>,
    endpoint: Seq<char>,
    project_name: Seq<char>,
) -> Result<Seq<char>, EditError> {
    match container_import_step(content, module, project_name) {
        Err(e) => Err(e),
        Ok(c1) => match container_field_step(c1, module, endpoint) {
            Err(e) => Err(e),
            Ok(c2) => if !regex_accepts(constructor_pattern(module)) {
                Err(EditError::RejectedPattern)
            } else {
                container_constructor_step(
                    c2,
                    matched_text(regex_first_match(constructor_pattern(module), c2)),
                    module,
                    endpoint,
                )
            },
        },
    }
}

/// The constructor's name, which its parameter list follows:
/// `func New<M>Container`.
pub open spec fn constructor_head(module: Seq<char>) -> Seq<char> {
    "func New"@ + module + "Container"@
}

/// `container_edit` with the constructor signature spelled out: the first
/// `func New<M>Container(...)` whose parameter list closes on its own line.
pub open spec fn container_edit_by_signature(
    content: Seq<char>,
    module: Seq<char>,
    endpoint: Seq<char>,
    project_name: Seq<char>,
) -> Result<Seq<char>, EditError> {
    match container_import_step(content, module, project_name) {
        Err(e) => Err(e),
        Ok(c1) => match container_field_step(c1, module, endpoint) {
            Err(e) => Err(e),
            Ok(c2) => if !regex_accepts(constructor_pattern(module)) {
                Err(EditError::RejectedPattern)
            } else {
                container_constructor_step(
                    c2,
                    first_paren_list(c2, constructor_head(module), 0),
                    module,
                    endpoint,
                )
            },
        },
    }
}

/// Inserts the REST handler import of `module` (already in snake_case)
/// before the first `)` of `content`.
pub fn add_import(content: &str, module: &str, project_name: &str) -> (r: String)
    requires
        contains_seq(content@, ")"@),
    ensures
        r@ == with_handler_import(content@, module@, project_name@),
{
    let chars = to_chars(content);
    let close = to_chars(")");
    let pos = find_seq(&chars, &close);
    let import_end = match pos {
        Some(i) => i,
        None => 0,
    };
    proof {
        lemma_find_from(chars@, close@, 0);
    }
    let mut line = String::new();
    line.append("    ");
    line.append(module);
    line.append("h \"");
    line.append(project_name);
    line.append("/src/entrypoints/rest/");
    line.append(module);
    line.append("\"");
    line.append("\n");
    let ins = to_chars(line.as_str());
    assert(ins@ =~= "    "@ + handler_import(module@, project_name@) + "\n"@);
    from_chars(&insert_seq(&chars, import_end, &ins))
}

fn container_import_step_exec(content: &str, module: &str, project_name: &str) -> (r: Result<String, EditError>)
    ensures
        result_view(r) == container_import_step(content@, module@, project_name@),
{
    let import_module = camel_to_snake_case(module);
    let mut import = String::new();
    import.append(import_module.as_str());
    import.append("h \"");
    import.append(project_name);
    import.append("/src/entrypoints/rest/");
    import.append(import_module.as_str());
    import.append("\"");
    let chars = to_chars(content);
    let import_chars = to_chars(import.as_str());
    assert(import_chars@ =~= handler_import(snake_case(module@), project_name@));
    if find_seq(&chars, &import_chars).is_some() {
        return Ok(from_chars(&chars));
    }
    let close = to_chars(")");
    if find_seq(&chars, &close).is_none() {
        return Err(EditError::MissingImportBlock);
    }
    Ok(add_import(content, import_module.as_str(), project_name))
}

fn container_field_step_exec(content: &Vec<char>, module: &str, endpoint: &str) -> (r: Result<Vec<char>, EditError>)
    ensures
        match r {
            Ok(v) => container_field_step(content@, module@, endpoint@) == Ok::<_, EditError>(v@),
            Err(e) => container_field_step(content@, module@, endpoint@) == Err::<Seq<char>, _>(e),
        },
{
    let mut header = String::new();
    header.append("type ");
    header.append(module);
    header.append("Container struct {");
    let header_chars = to_chars(header.as_str());
    assert(header_chars@ =~= "type "@ + module@ + "Container struct {"@);
    match find_seq(content, &header_chars) {
        None => Ok(content.clone()),
        Some(start) => {
            let brace = to_chars("}");
            match find_seq_from(content, &brace, start) {
                None => Err(EditError::UnclosedStruct),
                Some(close) => {
                    proof {
                        lemma_find_from(content@, brace@, start as int);
                    }
                    let mut field = String::new();
                    field.append("\n");
                    field.append("    ");
                    field.append(endpoint);
                    field.append(" ");
                    field.append(module);
                    field.append("h.");
                    field.append(endpoint);
                    field.append("\n");
                    let field_chars = to_chars(field.as_str());
                    assert(field_chars@ =~= "\n"@ + "    "@ + handler_member(module@, endpoint@) + "\n"@);
                    Ok(insert_seq(content, close, &field_chars))
                },
            }
        },
    }
}

/// Registers the handler in the constructor, given the constructor
/// signature that the pattern matched in `content` (if any): every
/// occurrence of the signature gets the new parameter, and the `return`
/// literal gets the new entry.
pub fn add_constructor_param(content: &str, signature: Option<&str>, module: &str, endpoint: &str) -> (r: Result<String, EditError>)
    ensures
        result_view(r) == container_constructor_step(
            content@,
            match signature {
                Some(s) => Some(s@),
                None => None,
            },
            module@,
            endpoint@,
        ),
{
    let chars = to_chars(content);
    match signature {
        None => Ok(from_chars(&chars)),
        Some(sig) => {
            let sig_chars = to_chars(sig);
            let mut tail = String::new();
            tail.append(", ");
            tail.append(endpoint);
            tail.append(" ");
            tail.append(module);
            tail.append("h.");
            tail.append(endpoint);
            tail.append(")");
            let tail_chars = to_chars(tail.as_str());
            assert(tail_chars@ =~= ", "@ + handler_member(module@, endpoint@) + ")"@);
            let close = to_chars(")");
            let extended = if find_seq(&sig_chars, &close).is_some() {
                replace_seq(&sig_chars, &close, &tail_chars)
            } else {
                let mut e = sig_chars.clone();
                crate::edit::extend_all(&mut e, &tail_chars);
                e
            };
            assert(extended@ == extended_signature(sig@, module@, endpoint@));
            let replaced = replace_seq(&chars, &sig_chars, &extended);
            let mut ret = String::new();
            ret.append("return ");
            ret.append(module);
            ret.append("Container{");
            let ret_chars = to_chars(ret.as_str());
            assert(ret_chars@ =~= "return "@ + module@ + "Container{"@);
            match find_seq(&replaced, &ret_chars) {
                None => Ok(from_chars(&replaced)),
                Some(start) => {
                    let brace = to_chars("}");
                    match find_seq_from(&replaced, &brace, start) {
                        None => Err(EditError::UnclosedReturn),
                        Some(close_at) => {
                            proof {
                                lemma_find_from(replaced@, brace@, start as int);
                            }
                            let mut entry = String::new();
                            entry.append("\n        ");
                            entry.append(endpoint);
                            entry.append(": ");
                            entry.append(endpoint);
                            entry.append(",\n");
                            let entry_chars = to_chars(entry.as_str());
                            assert(entry_chars@ =~= "\n        "@ + endpoint@ + ": "@ + endpoint@
                                + ",\n"@);
                            Ok(from_chars(&insert_seq(&replaced, close_at, &entry_chars)))
                        },
                    }
                },
            }
        },
    }
}

/// Registers a new handler (`endpoint`, already capitalised) in the
/// container file of `module`: adds the REST handler import when missing,
/// the struct field, the constructor parameter and the `return` entry.
pub fn update_container_content(content: &str, module: &str, endpoint: &str, project_name: &str) -> (r: Result<String, EditError>)
    ensures
        result_view(r) == container_edit(content@, module@, endpoint@, project_name@),
        is_word(module@) ==> result_view(r) == container_edit_by_signature(
            content@,
            module@,
            endpoint@,
            project_name@,
        ),
{
    let c1 = match container_import_step_exec(content, module, project_name) {
        Ok(c) => c,
        Err(e) => return Err(e),
    };
    let c1_chars = to_chars(c1.as_str());
    let c2_chars = match container_field_step_exec(&c1_chars, module, endpoint) {
        Ok(c) => c,
        Err(e) => return Err(e),
    };
    let c2 = from_chars(&c2_chars);
    let mut pattern = String::new();
    pattern.append("func New");
    pattern.append(module);
    pattern.append("Container\\((.*?)\\)");
    assert(pattern@ =~= constructor_pattern(module@));
    let compiled = match compile_pattern(pattern.as_str()) {
        Ok(p) => p,
        Err(_) => return Err(EditError::RejectedPattern),
    };
    let found = first_match(&compiled, c2.as_str());
    proof {
        if is_word(module@) {
            let head = constructor_head(module@);
            reveal_strlit("func New");
            reveal_strlit("Container");
            reveal_strlit("Container\\((.*?)\\)");
            reveal_strlit("\\((.*?)\\)");
            assert(constructor_pattern(module@) =~= paren_list_regex(head));
            assert(is_literal_text(head)) by {
                assert forall|k: int| 0 <= k < head.len() implies is_ascii_word_char(#[trigger] head[k])
                    || head[k] == ' ' by {
                    if 8 <= k < 8 + module@.len() {
                        assert(head[k] == module@[k - 8]);
                    }
                };
            };
            if let Some((a, b, c)) = &found {
                lemma_first_paren_list_found(c2@, head, a@, b@, c@);
            } else {
                lemma_first_paren_list_absent(c2@, head);
            }
        }
    }
    match found {
        Some((_, sig, _)) => add_constructor_param(c2.as_str(), Some(sig.as_str()), module, endpoint),
        None => add_constructor_param(c2.as_str(), None, module, endpoint),
    }
}

proof fn lemma_suffix_keeps(s: Seq<char>, tail: Seq<char>)
    ensures
        is_subseq(s, s + tail),
{
    lemma_subseq_refl(s);
    lemma_subseq_empty(tail);
    lemma_subseq_concat(s, s, Seq::empty(), tail);
    assert(s + Seq::<char>::empty() =~= s);
}

proof fn lemma_extended_signature_keeps(sig: Seq<char>, module: Seq<char>, endpoint: Seq<char>)
    ensures
        is_subseq(sig, extended_signature(sig, module, endpoint)),
{
    let head = ", "@ + handler_member(module, endpoint);
    if contains_seq(sig, ")"@) {
        lemma_subseq_empty(head);
        lemma_subseq_refl(")"@);
        lemma_subseq_concat(Seq::empty(), head, ")"@, ")"@);
        assert(Seq::<char>::empty() + ")"@ =~= ")"@);
        lemma_replace_all_keeps(sig, ")"@, head + ")"@);
    } else {
        lemma_suffix_keeps(sig, head + ")"@);
    }
}

proof fn lemma_insert_at_found_keeps(s: Seq<char>, pat: Seq<char>, start: int, ins: Seq<char>)
    requires
        0 <= start,
        find_from(s, pat, start) is Some,
    ensures
        is_subseq(s, insert_at(s, find_from(s, pat, start)->0, ins)),
{
    lemma_find_from(s, pat, start);
    lemma_insert_keeps(s, find_from(s, pat, start)->0, ins);
}

/// The constructor step only adds text.
pub proof fn lemma_constructor_step_keeps(
    content: Seq<char>,
    signature: Option<Seq<char>>,
    module: Seq<char>,
    endpoint: Seq<char>,
)
    ensures
        container_constructor_step(content, signature, module, endpoint) matches Ok(r)
            ==> is_subseq(content, r),
{
    match signature {
        None => {
            lemma_subseq_refl(content);
        },
        Some(sig) => {
            lemma_extended_signature_keeps(sig, module, endpoint);
            let replaced = replace_all(content, sig, extended_signature(sig, module, endpoint));
            lemma_replace_all_keeps(content, sig, extended_signature(sig, module, endpoint));
            match find_first(replaced, "return "@ + module + "Container{"@) {
                None => {},
                Some(start) => {
                    lemma_find_from(replaced, "return "@ + module + "Container{"@, 0);
                    if find_from(replaced, "}"@, start) is Some {
                        let ins = "\n        "@ + endpoint + ": "@ + endpoint + ",\n"@;
                        lemma_insert_at_found_keeps(replaced, "}"@, start, ins);
                        lemma_subseq_trans(
                            content,
                            replaced,
                            insert_at(replaced, find_from(replaced, "}"@, start)->0, ins),
                        );
                    }
                },
            }
        },
    }
}

/// The REST handler import is added at most once: after the import step the
/// file holds the import, and running the step again changes nothing.
pub proof fn law_container_import_added_once(content: Seq<char>, module: Seq<char>, project_name: Seq<char>)
    ensures
        container_import_step(content, module, project_name) matches Ok(c1) ==> contains_seq(
            c1,
            handler_import(snake_case(module), project_name),
        ),
        container_import_step(content, module, project_name) matches Ok(c1)
            ==> container_import_step(c1, module, project_name) == Ok::<_, EditError>(c1),
{
    let import_module = snake_case(module);
    let imp = handler_import(import_module, project_name);
    if !contains_seq(content, imp) && contains_seq(content, ")"@) {
        lemma_find_from(content, ")"@, 0);
        crate::edit::lemma_inserted_is_contained(
            content,
            find_first(content, ")"@)->0,
            "    "@,
            imp,
            "\n"@,
        );
    }
}

/// Registering a handler in a container file never removes text: the
/// file before the edit is a subsequence of the file after it.
pub proof fn law_container_edit_keeps_content(
    content: Seq<char>,
    module: Seq<char>,
    endpoint: Seq<char>,
    project_name: Seq<char>,
)
    ensures
        container_edit(content, module, endpoint, project_name) matches Ok(r) ==> is_subseq(
            content,
            r,
        ),
{
    let import_module = snake_case(module);
    match container_import_step(content, module, project_name) {
        Err(_) => {},
        Ok(c1) => {
            if contains_seq(content, handler_import(import_module, project_name)) {
                lemma_subseq_refl(content);
            } else {
                lemma_insert_at_found_keeps(
                    content,
                    ")"@,
                    0,
                    "    "@ + handler_import(import_module, project_name) + "\n"@,
                );
            }
            match container_field_step(c1, module, endpoint) {
                Err(_) => {},
                Ok(c2) => {
                    match find_first(c1, "type "@ + module + "Container struct {"@) {
                        None => {
                            lemma_subseq_refl(c1);
                        },
                        Some(start) => {
                            lemma_find_from(c1, "type "@ + module + "Container struct {"@, 0);
                            lemma_insert_at_found_keeps(
                                c1,
                                "}"@,
                                start,
                                "\n"@ + "    "@ + handler_member(module, endpoint) + "\n"@,
                            );
                        },
                    }
                    lemma_subseq_trans(content, c1, c2);
                    let sig = matched_text(regex_first_match(constructor_pattern(module), c2));
                    lemma_constructor_step_keeps(c2, sig, module, endpoint);
                    if let Ok(r) = container_edit(content, module, endpoint, project_name) {
                        lemma_subseq_trans(content, c2, r);
                    }
                },
            }
        },
    }
}

} // verus!
