//! Registering a module in the web handler container
//! (`src/infrastructure/dependencies/containers.go`) and a route in
//! `functions.go`.
use vstd::prelude::*;
use crate::edit::{EditError, extend_range, insert_at, insert_seq, is_subseq, lemma_insert_keeps, lemma_subseq_refl};
use crate::naming::{
    camel_to_snake_case, capitalize_first_letter, capitalized, law_snake_case_first_char, snake_case,
};
use crate::text::{ascii_lower, is_ascii_seq};
use crate::pattern::{
    compile_pattern, first_match, has_captures, is_route_call, regex_accepts, regex_first_match,
    route_call_regex,
};
use crate::search::{
    contains_seq, find_first, find_from, find_seq, find_seq_from, lemma_find_from,
    lemma_find_from_is, occurs_at,
};
use crate::text::{from_chars, to_chars};

verus! {

/// The line that opens the web handler container struct.
pub open spec fn web_container_header() -> Seq<char> {
    "type WebHandlerContainer struct {"@
}

/// The web handler container's field for a module.
pub open spec fn web_container_field(module: Seq<char>) -> Seq<char> {
    "\t"@ + capitalized(module) + " entrypoints."@ + capitalized(module) + "Container\n"@
}

/// Where the web handler container struct that starts at `start` ends: its
/// first `}`, or the end of the file.
pub open spec fn struct_end(content: Seq<char>, start: int) -> int {
    match find_from(content, "}"@, start) {
        Some(i) => i,
        None => content.len() as int,
    }
}

/// The web handler container with the module's field added before the
/// struct's closing `}` unless the struct already has it; `None` when the
/// file has no web handler container struct.
pub open spec fn web_container_edit(content: Seq<char>, module: Seq<char>) -> Option<Seq<char>> {
    match find_first(content, web_container_header()) {
        None => None,
        Some(start) => {
            let end = struct_end(content, start);
            if contains_seq(content.subrange(start, end), web_container_field(module)) {
                Some(content)
            } else {
                Some(insert_at(content, end, web_container_field(module)))
            }
        },
    }
}

/// Adds the container of `module` to the web handler container struct;
/// `None` when the file has no such struct.
pub fn update_web_handler_content(content: &str, module: &str) -> (r: Option<String>)
    ensures
        match r {
            Some(s) => web_container_edit(content@, module@) == Some(s@),
            None => web_container_edit(content@, module@) is None,
        },
{
    let chars = to_chars(content);
    let module = capitalize_first_letter(module);
    let header = to_chars("type WebHandlerContainer struct {");
    let start = match find_seq(&chars, &header) {
        Some(s) => s,
        None => return None,
    };
    proof {
        lemma_find_from(chars@, header@, 0);
    }
    let brace = to_chars("}");
    let end = match find_seq_from(&chars, &brace, start) {
        Some(i) => i,
        None => chars.len(),
    };
    proof {
        lemma_find_from(chars@, brace@, start as int);
    }
    let mut field = String::new();
    field.append("\t");
    field.append(module.as_str());
    field.append(" entrypoints.");
    field.append(module.as_str());
    field.append("Container\n");
    let field_chars = to_chars(field.as_str());
    let mut body: Vec<char> = Vec::new();
    extend_range(&mut body, &chars, start, end);
    assert(body@ =~= chars@.subrange(start as int, end as int));
    if find_seq(&body, &field_chars).is_some() {
        Some(from_chars(&chars))
    } else {
        Some(from_chars(&insert_seq(&chars, end, &field_chars)))
    }
}

pub(crate) proof fn lemma_brace_occurs(s: Seq<char>, j: int)
    ensures
        occurs_at(s, "}"@, j) <==> (0 <= j < s.len() && s[j] == '}'),
{
    reveal_strlit("}");
    if 0 <= j < s.len() && s[j] == '}' {
        assert(s.subrange(j, j + 1) =~= "}"@);
    }
    if occurs_at(s, "}"@, j) {
        assert(s.subrange(j, j + 1)[0] == s[j]);
    }
}

/// The web handler container edit only adds text.
pub proof fn law_web_container_edit_keeps_content(content: Seq<char>, module: Seq<char>)
    ensures
        web_container_edit(content, module) matches Some(r) ==> is_subseq(content, r),
{
    match find_first(content, web_container_header()) {
        None => {},
        Some(start) => {
            lemma_find_from(content, web_container_header(), 0);
            lemma_find_from(content, "}"@, start);
            let end = struct_end(content, start);
            if contains_seq(content.subrange(start, end), web_container_field(module)) {
                lemma_subseq_refl(content);
            } else {
                lemma_insert_keeps(content, end, web_container_field(module));
            }
        },
    }
}

/// After the edit, the web handler container struct (from its header to
/// its first `}`) holds the module's whole field line, provided the field
/// text holds no `}` (which would end the struct early).
pub proof fn law_web_container_has_field(content: Seq<char>, module: Seq<char>)
    requires
        forall|k: int|
            0 <= k < web_container_field(module).len() ==> #[trigger] web_container_field(
                module,
            )[k] != '}',
    ensures
        web_container_edit(content, module) matches Some(r) ==> (find_first(
            r,
            web_container_header(),
        ) matches Some(start) && contains_seq(
            r.subrange(start, struct_end(r, start)),
            web_container_field(module),
        )),
{
    let h = web_container_header();
    let f = web_container_field(module);
    match find_first(content, h) {
        None => {},
        Some(start) => {
            lemma_find_from(content, h, 0);
            lemma_find_from(content, "}"@, start);
            let end = struct_end(content, start);
            if contains_seq(content.subrange(start, end), f) {
            } else {
                reveal_strlit("type WebHandlerContainer struct {");
                let c1 = insert_at(content, end, f);
                // The header holds no `}`, so the struct ends after it.
                assert(start + h.len() <= end) by {
                    if end < start + h.len() {
                        lemma_brace_occurs(content, end);
                        if end < content.len() {
                            assert(content.subrange(start, start + h.len())[end - start] == content[end]);
                        }
                    }
                };
                assert(c1.len() == content.len() + f.len());
                assert forall|j: int| 0 <= j < end implies c1[j] == content[j] by {};
                // The header is still first found at `start`.
                assert forall|j: int| 0 <= j < start implies !#[trigger] occurs_at(c1, h, j) by {
                    assert(!occurs_at(content, h, j));
                    if occurs_at(c1, h, j) {
                        assert(c1.subrange(j, j + h.len()) =~= content.subrange(j, j + h.len()));
                    }
                };
                assert(c1.subrange(start, start + h.len()) =~= content.subrange(start, start + h.len()));
                lemma_find_from_is(c1, h, 0, start);
                // The struct now ends after the inserted field.
                let end1 = end + f.len();
                assert forall|j: int| start <= j < end1 implies !#[trigger] occurs_at(c1, "}"@, j) by {
                    lemma_brace_occurs(c1, j);
                    if j < end {
                        lemma_brace_occurs(content, j);
                    } else {
                        assert(c1[j] == f[j - end]);
                    }
                };
                if end < content.len() {
                    lemma_brace_occurs(content, end);
                    lemma_brace_occurs(c1, end1);
                    assert(c1[end1] == content[end]);
                    lemma_find_from_is(c1, "}"@, start, end1);
                } else {
                    assert forall|j: int| start <= j implies !#[trigger] occurs_at(c1, "}"@, j) by {
                        lemma_brace_occurs(c1, j);
                    };
                    lemma_find_from(c1, "}"@, start);
                }
                assert(struct_end(c1, start) == end1);
                // The field is now inside the struct.
                let body = c1.subrange(start, end1);
                assert(body.subrange(end - start, end1 - start) =~= f);
                assert(occurs_at(body, f, end - start));
                lemma_find_from(body, f, 0);
            }
        },
    }
}

/// Registering the same module twice adds its field once: applying the
/// edit to its own result changes nothing, provided the field text holds no
/// `}` (which would end the struct early).
pub proof fn law_web_container_edit_idempotent(content: Seq<char>, module: Seq<char>)
    requires
        forall|k: int|
            0 <= k < web_container_field(module).len() ==> #[trigger] web_container_field(
                module,
            )[k] != '}',
    ensures
        web_container_edit(content, module) matches Some(r) ==> web_container_edit(r, module)
            == Some(r),
{
    law_web_container_has_field(content, module);
}

/// For any module name without `}` that starts with an ASCII character (or
/// is empty): after the edit the struct holds the module's whole field line,
/// and registering the same module twice adds its field once.
pub proof fn law_web_container_registration_once(content: Seq<char>, module: Seq<char>)
    requires
        forall|k: int| 0 <= k < module.len() ==> #[trigger] module[k] != '}',
        module.len() == 0 || (module[0] as u32) < 128,
    ensures
        web_container_edit(content, module) matches Some(r) ==> (find_first(
            r,
            web_container_header(),
        ) matches Some(start) && contains_seq(
            r.subrange(start, struct_end(r, start)),
            web_container_field(module),
        )),
        web_container_edit(content, module) matches Some(r) ==> web_container_edit(r, module)
            == Some(r),
{
    reveal_strlit("\t");
    reveal_strlit(" entrypoints.");
    reveal_strlit("Container\n");
    let cap = capitalized(module);
    assert forall|k: int| 0 <= k < cap.len() implies #[trigger] cap[k] != '}' by {
        if k > 0 {
            assert(cap[k] == module[k]);
        }
    };
    let f = web_container_field(module);
    assert forall|k: int| 0 <= k < f.len() implies #[trigger] f[k] != '}' by {
        let a = "\t"@ + cap;
        let b = a + " entrypoints."@;
        let d = b + cap;
        if k < a.len() {
            if k >= 1 {
                assert(a[k] == cap[k - 1]);
            }
        } else if k < b.len() {
        } else if k < d.len() {
            assert(d[k] == cap[k - b.len()]);
        }
    };
    law_web_container_has_field(content, module);
    law_web_container_edit_idempotent(content, module);
}

/// The regular expression that finds the first registered route.
pub open spec fn route_pattern() -> Seq<char> {
    "(?P<method>GET|POST|PUT|DELETE|PATCH)\\(fn\\.Handlers\\.\\w+\\.\\w+\\.Handle\\(\\)\\)\\)"@
}

/// The route registration for a new endpoint.
pub open spec fn route_text(module: Seq<char>, endpoint: Seq<char>) -> Seq<char> {
    let ms = snake_case(module);
    let es = snake_case(endpoint);
    "\nfunctions.HTTP(\"/api/v1/"@ + ms + "/"@ + es + "\", fn.\n        Public().\n        Path(\"/api/v1/"@
        + ms + "/"@ + es + "\").\n        POST(fn."@ + capitalized(module) + "."@ + capitalized(
        endpoint,
    ) + ".Handle()))"@
}

/// Given the first route the pattern found (split into before / matched /
/// after) and whether the pattern captures in the matched text: the file
/// with the new route inserted right after the found one, and whether a
/// route was found at all.
pub open spec fn route_edit(
    content: Seq<char>,
    found: Option<(Seq<char>, Seq<char>, Seq<char>)>,
    captured: bool,
    module: Seq<char>,
    endpoint: Seq<char>,
) -> (Seq<char>, bool) {
    match found {
        None => (content, false),
        Some((before, matched, _)) => if captured {
            (insert_at(content, (before + matched).len() as int, route_text(module, endpoint)), true)
        } else {
            (content, true)
        },
    }
}

/// `functions.go` with the new endpoint's route inserted after the first
/// registered route, and whether such a route was found.
pub open spec fn functions_edit(content: Seq<char>, module: Seq<char>, endpoint: Seq<char>) -> Result<(Seq<char>, bool), EditError> {
    if !regex_accepts(route_pattern()) {
        Err(EditError::RejectedPattern)
    } else {
        let found = regex_first_match(route_pattern(), content);
        let captured = match found {
            Some((_, matched, _)) => regex_first_match(route_pattern(), matched) is Some,
            None => false,
        };
        Ok(route_edit(content, found, captured, module, endpoint))
    }
}

/// Inserts the route of the new endpoint after the route that was found
/// (when the pattern also captures in the matched text); the flag tells
/// whether a route was found.
pub fn insert_route(
    content: &str,
    found: &Option<(String, String, String)>,
    captured: bool,
    module: &str,
    endpoint: &str,
) -> (r: (String, bool))
    requires
        found matches Some((a, b, c)) ==> a@ + b@ + c@ == content@,
    ensures
        (r.0@, r.1) == route_edit(content@, crate::pattern::split_view(*found), captured, module@, endpoint@),
{
    let chars = to_chars(content);
    match found {
        None => (from_chars(&chars), false),
        Some((before, matched, after)) => {
            if !captured {
                return (from_chars(&chars), true);
            }
            let after_len = to_chars(after.as_str()).len();
            assert(before@ + matched@ + after@ == chars@);
            let pos = chars.len() - after_len;
            assert(pos == (before@ + matched@).len());
            let ms = camel_to_snake_case(module);
            let es = camel_to_snake_case(endpoint);
            let mu = capitalize_first_letter(module);
            let eu = capitalize_first_letter(endpoint);
            let mut route = String::new();
            route.append("\nfunctions.HTTP(\"/api/v1/");
            route.append(ms.as_str());
            route.append("/");
            route.append(es.as_str());
            route.append("\", fn.\n        Public().\n        Path(\"/api/v1/");
            route.append(ms.as_str());
            route.append("/");
            route.append(es.as_str());
            route.append("\").\n        POST(fn.");
            route.append(mu.as_str());
            route.append(".");
            route.append(eu.as_str());
            route.append(".Handle()))");
            let route_chars = to_chars(route.as_str());
            assert(route_chars@ =~= route_text(module@, endpoint@));
            (from_chars(&insert_seq(&chars, pos, &route_chars)), true)
        },
    }
}

/// Registers the new endpoint's route in `functions.go`, right after the
/// first registered route; the flag tells whether one was found. Every
/// route call `<METHOD>(fn.Handlers.<A>.<B>.Handle()))` with ASCII names
/// counts as a registered route: when the file holds one, a route is found;
/// in an ASCII file the new route goes right after the first of them; when
/// none is found the file is left as it is.
pub fn update_functions_content(content: &str, module: &str, endpoint: &str) -> (r: Result<(String, bool), EditError>)
    ensures
        match r {
            Ok((s, found)) => functions_edit(content@, module@, endpoint@) == Ok::<_, EditError>((s@, found)),
            Err(e) => functions_edit(content@, module@, endpoint@) == Err::<(Seq<char>, bool), _>(e),
        },
        r matches Ok((s, found)) ==> ((exists|x: Seq<char>, i: int|
            is_route_call(x) && #[trigger] occurs_at(content@, x, i)) ==> found),
        r matches Ok((s, found)) ==> (!found ==> s@ == content@),
        is_ascii_seq(content@) ==> (r matches Ok((s, found)) ==> (found ==> exists|
            x: Seq<char>,
            i: int,
        |
            is_route_call(x) && #[trigger] occurs_at(content@, x, i) && (forall|y: Seq<char>, j: int|
                is_route_call(y) && #[trigger] occurs_at(content@, y, j) ==> i <= j) && s@
                == insert_at(content@, i + x.len(), route_text(module@, endpoint@)))),
{
    let compiled = match compile_pattern(
        "(?P<method>GET|POST|PUT|DELETE|PATCH)\\(fn\\.Handlers\\.\\w+\\.\\w+\\.Handle\\(\\)\\)\\)",
    ) {
        Ok(p) => p,
        Err(_) => return Err(EditError::RejectedPattern),
    };
    assert(compiled@ == route_call_regex());
    let found = first_match(&compiled, content);
    let captured = match &found {
        Some((_, matched, _)) => has_captures(&compiled, matched.as_str()),
        None => false,
    };
    let r = insert_route(content, &found, captured, module, endpoint);
    proof {
        if exists|x: Seq<char>, i: int| is_route_call(x) && #[trigger] occurs_at(content@, x, i) {
            let (x, i) = choose|x: Seq<char>, i: int|
                is_route_call(x) && #[trigger] occurs_at(content@, x, i);
            assert(found is Some);
        }
        if is_ascii_seq(content@) && r.1 {
            if let Some((a, b, c)) = found {
                let x = b@;
                let i = a@.len() as int;
                assert(a@ + b@ + c@ == content@);
                assert(content@.subrange(i, i + x.len()) =~= x);
                assert(occurs_at(content@, x, i));
                assert(captured);
            }
        }
    }
    Ok(r)
}

/// Registering a route only adds text. (`Regex::find` splits the file into
/// the text before the match, the match and the text after it.)
pub proof fn law_functions_edit_keeps_content(content: Seq<char>, module: Seq<char>, endpoint: Seq<char>)
    requires
        regex_first_match(route_pattern(), content) matches Some((a, b, c)) ==> a + b + c
            == content,
    ensures
        functions_edit(content, module, endpoint) matches Ok((r, _)) ==> is_subseq(content, r),
{
    if regex_accepts(route_pattern()) {
        let found = regex_first_match(route_pattern(), content);
        lemma_subseq_refl(content);
        if let Some((before, matched, _)) = found {
            let pos = (before + matched).len() as int;
            if pos <= content.len() {
                lemma_insert_keeps(content, pos, route_text(module, endpoint));
            }
        }
    }
}

/// The URL path of a new endpoint's route: `/api/v1/`, the module in
/// snake_case, `/`, the endpoint in snake_case.
pub open spec fn route_path(module: Seq<char>, endpoint: Seq<char>) -> Seq<char> {
    "/api/v1/"@ + snake_case(module) + "/"@ + snake_case(endpoint)
}

/// The route registered for an endpoint serves the path made of the module
/// and endpoint names in snake_case (as `camel_to_snake_case` writes them),
/// both as the route's name and as its `Path`, and calls the handler
/// `fn.<Module>.<Endpoint>` by the capitalised names. Each path segment
/// begins with the name's own first character (lowered when it is an ASCII
/// letter), never with an inserted `_`.
pub proof fn law_route_serves_snake_case_path(module: Seq<char>, endpoint: Seq<char>)
    ensures
        module.len() > 0 ==> route_path(module, endpoint)[8] == ascii_lower(module[0]),
        endpoint.len() > 0 ==> route_path(module, endpoint)[9 + snake_case(module).len() as int]
            == ascii_lower(endpoint[0]),
        route_text(module, endpoint) =~= "\nfunctions.HTTP(\""@ + route_path(module, endpoint)
            + "\", fn.\n        Public().\n        Path(\""@ + route_path(module, endpoint)
            + "\").\n        POST(fn."@ + capitalized(module) + "."@ + capitalized(endpoint)
            + ".Handle()))"@,
{
    reveal_strlit("\nfunctions.HTTP(\"/api/v1/");
    reveal_strlit("\nfunctions.HTTP(\"");
    reveal_strlit("/api/v1/");
    reveal_strlit("\", fn.\n        Public().\n        Path(\"/api/v1/");
    reveal_strlit("\", fn.\n        Public().\n        Path(\"");
    reveal_strlit("/");
    if module.len() > 0 {
        law_snake_case_first_char(module);
    }
    if endpoint.len() > 0 {
        law_snake_case_first_char(endpoint);
    }
}

} // verus!
