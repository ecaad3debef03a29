//! Laws of the container edit: on a freshly generated container file, and
//! on any file whose struct or constructor the edit finds.
use vstd::prelude::*;
use crate::container::{
    constructor_head, container_edit_by_signature, container_constructor_step, container_field_step, container_import_step, extended_signature,
    handler_import, handler_member,
};
use crate::edit::{insert_at, replace_all, replace_from, EditError};
use crate::naming::snake_case;
use crate::search::{
    contains_seq, find_first, find_from, lemma_find_from, lemma_find_from_is, lemma_find_from_none,
    occurs_at,
};
use crate::paren_list::{first_paren_list, lemma_first_paren_list_found};
use crate::pattern::is_paren_list;
use crate::template::container_content;
use crate::wire_laws::{is_word, is_word_char};

verus! {

/// A fresh container file up to the end of its struct and the `func New`
/// that follows.
#[verifier::opaque]
spec fn fresh_head(m: Seq<char>, e: Seq<char>, p: Seq<char>) -> Seq<char> {
    "package entrypoints\n\nimport (\n    "@ + snake_case(m) + "h \""@ + p + "/src/entrypoints/rest/"@
        + snake_case(m) + "\"\n)\n\ntype "@ + m + "Container struct {\n    "@ + e + " "@ + m + "h."@
        + e + "\n}\n\nfunc New"@
}

/// The index of the `}` that closes the struct of a fresh container file.
pub open spec fn fresh_struct_end(m: Seq<char>, e: Seq<char>, p: Seq<char>) -> int {
    (96 + 2 * snake_case(m).len() + p.len() + 2 * m.len() + 2 * e.len()) as int
}

spec fn fresh_char(m: Seq<char>, e: Seq<char>, p: Seq<char>, x: int) -> char {
    let mi = snake_case(m);
    let a = mi.len() as int;
    let pl = p.len() as int;
    let ml = m.len() as int;
    let el = e.len() as int;
    if x < 34 {
        "package entrypoints\n\nimport (\n    "@[x]
    } else if x < 34 + a {
        mi[x - 34]
    } else if x < 37 + a {
        "h \""@[x - 34 - a]
    } else if x < 37 + a + pl {
        p[x - 37 - a]
    } else if x < 59 + a + pl {
        "/src/entrypoints/rest/"@[x - 37 - a - pl]
    } else if x < 59 + 2 * a + pl {
        mi[x - 59 - a - pl]
    } else if x < 69 + 2 * a + pl {
        "\"\n)\n\ntype "@[x - 59 - 2 * a - pl]
    } else if x < 69 + 2 * a + pl + ml {
        m[x - 69 - 2 * a - pl]
    } else if x < 92 + 2 * a + pl + ml {
        "Container struct {\n    "@[x - 69 - 2 * a - pl - ml]
    } else if x < 92 + 2 * a + pl + ml + el {
        e[x - 92 - 2 * a - pl - ml]
    } else if x < 93 + 2 * a + pl + ml + el {
        ' '
    } else if x < 93 + 2 * a + pl + 2 * ml + el {
        m[x - 93 - 2 * a - pl - ml - el]
    } else if x < 95 + 2 * a + pl + 2 * ml + el {
        "h."@[x - 93 - 2 * a - pl - 2 * ml - el]
    } else if x < 95 + 2 * a + pl + 2 * ml + 2 * el {
        e[x - 95 - 2 * a - pl - 2 * ml - el]
    } else {
        "\n}\n\nfunc New"@[x - 95 - 2 * a - pl - 2 * ml - 2 * el]
    }
}

proof fn lemma_fresh_prefix(m: Seq<char>, e: Seq<char>, p: Seq<char>)
    ensures
        fresh_head(m, e, p).len() <= container_content(m, e, p).len(),
        forall|x: int|
            0 <= x < fresh_head(m, e, p).len() ==> #[trigger] container_content(m, e, p)[x]
                == fresh_head(m, e, p)[x],
{
    reveal(container_content);
    reveal(fresh_head);
}

proof fn lemma_fresh_char(m: Seq<char>, e: Seq<char>, p: Seq<char>, x: int)
    requires
        0 <= x < fresh_head(m, e, p).len(),
    ensures
        container_content(m, e, p)[x] == fresh_char(m, e, p, x),
        fresh_head(m, e, p).len() == 107 + 2 * snake_case(m).len() + p.len() + 2 * m.len() + 2
            * e.len(),
{
    lemma_fresh_prefix(m, e, p);
    reveal(fresh_head);
    reveal_strlit("package entrypoints\n\nimport (\n    ");
    reveal_strlit("h \"");
    reveal_strlit("/src/entrypoints/rest/");
    reveal_strlit("\"\n)\n\ntype ");
    reveal_strlit("Container struct {\n    ");
    reveal_strlit(" ");
    reveal_strlit("h.");
    reveal_strlit("\n}\n\nfunc New");
}

proof fn lemma_fresh_len(m: Seq<char>, e: Seq<char>, p: Seq<char>)
    ensures
        fresh_head(m, e, p).len() == 107 + 2 * snake_case(m).len() + p.len() + 2 * m.len() + 2
            * e.len(),
        fresh_head(m, e, p).len() <= container_content(m, e, p).len(),
{
    lemma_fresh_prefix(m, e, p);
    reveal(fresh_head);
    reveal_strlit("package entrypoints\n\nimport (\n    ");
    reveal_strlit("h \"");
    reveal_strlit("/src/entrypoints/rest/");
    reveal_strlit("\"\n)\n\ntype ");
    reveal_strlit("Container struct {\n    ");
    reveal_strlit(" ");
    reveal_strlit("h.");
    reveal_strlit("\n}\n\nfunc New");
}

proof fn lemma_fresh_no_open_brace(m: Seq<char>, e: Seq<char>, p: Seq<char>, x: int)
    requires
        is_word(m),
        forall|k: int| 0 <= k < p.len() ==> #[trigger] p[k] != '{',
        0 <= x < 86 + 2 * snake_case(m).len() + p.len() + m.len(),
    ensures
        fresh_char(m, e, p, x) != '{',
{
    let mi = snake_case(m);
    crate::wire_laws::lemma_names_are_words(m);
    let a = mi.len() as int;
    let pl = p.len() as int;
    let ml = m.len() as int;
    reveal_strlit("package entrypoints\n\nimport (\n    ");
    reveal_strlit("h \"");
    reveal_strlit("/src/entrypoints/rest/");
    reveal_strlit("\"\n)\n\ntype ");
    reveal_strlit("Container struct {\n    ");
    if x < 34 {
    } else if x < 34 + a {
        assert(is_word_char(mi[x - 34]));
    } else if x < 37 + a {
    } else if x < 37 + a + pl {
    } else if x < 59 + a + pl {
    } else if x < 59 + 2 * a + pl {
        assert(is_word_char(mi[x - 59 - a - pl]));
    } else if x < 69 + 2 * a + pl {
    } else if x < 69 + 2 * a + pl + ml {
        assert(is_word_char(m[x - 69 - 2 * a - pl]));
    } else {
        assert(fresh_char(m, e, p, x) == "Container struct {\n    "@[x - 69 - 2 * a - pl - ml]);
    }
}

proof fn lemma_fresh_no_close_brace(m: Seq<char>, e: Seq<char>, p: Seq<char>, x: int)
    requires
        is_word(m),
        is_word(e),
        64 + 2 * snake_case(m).len() + p.len() <= x < fresh_struct_end(m, e, p),
    ensures
        fresh_char(m, e, p, x) != '}',
{
    let mi = snake_case(m);
    let a = mi.len() as int;
    let pl = p.len() as int;
    let ml = m.len() as int;
    let el = e.len() as int;
    reveal_strlit("\"\n)\n\ntype ");
    reveal_strlit("Container struct {\n    ");
    reveal_strlit("h.");
    reveal_strlit("\n}\n\nfunc New");
    if x < 69 + 2 * a + pl {
    } else if x < 69 + 2 * a + pl + ml {
        assert(is_word_char(m[x - 69 - 2 * a - pl]));
    } else if x < 92 + 2 * a + pl + ml {
    } else if x < 92 + 2 * a + pl + ml + el {
        assert(is_word_char(e[x - 92 - 2 * a - pl - ml]));
    } else if x < 93 + 2 * a + pl + ml + el {
    } else if x < 93 + 2 * a + pl + 2 * ml + el {
        assert(is_word_char(m[x - 93 - 2 * a - pl - ml - el]));
    } else if x < 95 + 2 * a + pl + 2 * ml + el {
    } else if x < 95 + 2 * a + pl + 2 * ml + 2 * el {
        assert(is_word_char(e[x - 95 - 2 * a - pl - 2 * ml - el]));
    } else {
    }
}

/// Adding a second handler to a freshly generated container file: the
/// handler import is already there and is not added again, and the new
/// field goes right before the `}` that closes the struct, after the first
/// handler's field. The module and the first endpoint are ASCII words and
/// the project name holds no `{`. When the second endpoint is an ASCII word
/// too and the project name holds no `(`, the constructor step, given the
/// signature `func New{m}Container({e1} {m}h.{e1})`, which the file holds,
/// extends that signature with the new parameter and adds the new
/// entry at the end of the `return` literal, which gives the two-handler
/// container. (Which text the constructor pattern matches is named by
/// `regex_first_match`, not stated.)
pub proof fn law_fresh_container_second_handler(m: Seq<char>, e1: Seq<char>, e2: Seq<char>, p: Seq<char>)
    requires
        is_word(m),
        is_word(e1),
        forall|k: int| 0 <= k < p.len() ==> #[trigger] p[k] != '{',
    ensures
        container_import_step(container_content(m, e1, p), m, p) == Ok::<_, EditError>(
            container_content(m, e1, p),
        ),
        container_field_step(container_content(m, e1, p), m, e2) == Ok::<_, EditError>(
            insert_at(
                container_content(m, e1, p),
                fresh_struct_end(m, e1, p),
                "\n"@ + "    "@ + handler_member(m, e2) + "\n"@,
            ),
        ),
        is_word(e2) && (forall|k: int| 0 <= k < p.len() ==> #[trigger] p[k] != '(')
            ==> contains_seq(
            insert_at(
                container_content(m, e1, p),
                fresh_struct_end(m, e1, p),
                "\n"@ + "    "@ + handler_member(m, e2) + "\n"@,
            ),
            fresh_constructor_signature(m, e1),
        ),
        is_word(e2) && (forall|k: int| 0 <= k < p.len() ==> #[trigger] p[k] != '(')
            ==> container_constructor_step(
            insert_at(
                container_content(m, e1, p),
                fresh_struct_end(m, e1, p),
                "\n"@ + "    "@ + handler_member(m, e2) + "\n"@,
            ),
            Some(fresh_constructor_signature(m, e1)),
            m,
            e2,
        ) == Ok::<_, EditError>(two_handler_container(m, e1, e2, p)),
{
    if is_word(e2) && (forall|k: int| 0 <= k < p.len() ==> #[trigger] p[k] != '(') {
        lemma_fresh_constructor_step(m, e1, e2, p);
    }
    let t = container_content(m, e1, p);
    let mi = snake_case(m);
    let a = mi.len() as int;
    let pl = p.len() as int;
    let ml = m.len() as int;
    let el = e1.len() as int;
    lemma_fresh_len(m, e1, p);
    reveal_strlit("h \"");
    reveal_strlit("/src/entrypoints/rest/");
    reveal_strlit("\"");
    reveal_strlit("\"\n)\n\ntype ");
    reveal_strlit("type ");
    reveal_strlit("Container struct {");
    reveal_strlit("Container struct {\n    ");
    reveal_strlit("}");
    reveal_strlit("\n}\n\nfunc New");
    // The import is already there.
    let imp = handler_import(mi, p);
    assert(t.subrange(34, 34 + imp.len() as int) =~= imp) by {
        assert forall|u: int| 0 <= u < imp.len() implies t[34 + u] == imp[u] by {
            lemma_fresh_char(m, e1, p, 34 + u);
        };
    };
    assert(occurs_at(t, imp, 34));
    lemma_find_from(t, imp, 0);
    assert(contains_seq(t, imp));
    // The struct header is first found where the template puts it.
    let h = "type "@ + m + "Container struct {"@;
    let s0 = 64 + 2 * a + pl;
    assert(t.subrange(s0, s0 + h.len()) =~= h) by {
        assert forall|u: int| 0 <= u < h.len() implies t[s0 + u] == h[u] by {
            lemma_fresh_char(m, e1, p, s0 + u);
        };
    };
    assert forall|j: int| 0 <= j < s0 implies !#[trigger] occurs_at(t, h, j) by {
        if occurs_at(t, h, j) {
            let x = j + h.len() - 1;
            assert(t.subrange(j, j + h.len())[h.len() - 1] == t[x]);
            lemma_fresh_char(m, e1, p, x);
            lemma_fresh_no_open_brace(m, e1, p, x);
        }
    };
    lemma_find_from_is(t, h, 0, s0);
    // The struct is closed by the first `}` after its header.
    let cb = fresh_struct_end(m, e1, p);
    lemma_fresh_char(m, e1, p, cb);
    assert(t.subrange(cb, cb + 1) =~= "}"@);
    assert forall|x: int| s0 <= x < cb implies !#[trigger] occurs_at(t, "}"@, x) by {
        if occurs_at(t, "}"@, x) {
            assert(t.subrange(x, x + 1)[0] == t[x]);
            lemma_fresh_char(m, e1, p, x);
            lemma_fresh_no_close_brace(m, e1, p, x);
        }
    };
    lemma_find_from_is(t, "}"@, s0, cb);
}

/// The constructor signature of a freshly generated container file.
pub open spec fn fresh_constructor_signature(m: Seq<char>, e: Seq<char>) -> Seq<char> {
    "func New"@ + m + "Container("@ + e + " "@ + m + "h."@ + e + ")"@
}

/// A generated container file of module `m` with the handlers `e1` and
/// `e2` registered.
pub open spec fn two_handler_container(m: Seq<char>, e1: Seq<char>, e2: Seq<char>, p: Seq<char>) -> Seq<char> {
    "package entrypoints\n\nimport (\n    "@ + snake_case(m) + "h \""@ + p + "/src/entrypoints/rest/"@
        + snake_case(m) + "\"\n)\n\ntype "@ + m + "Container struct {\n    "@ + e1 + " "@ + m
        + "h."@ + e1 + "\n"@ + "\n    "@ + e2 + " "@ + m + "h."@ + e2 + "\n"@ + "}\n\n"@
        + "func New"@ + m + "Container("@ + e1 + " "@ + m + "h."@ + e1 + ", "@ + e2 + " "@ + m
        + "h."@ + e2 + ")"@ + " "@ + m + "Container {\n    "@ + "return "@ + m + "Container{"@
        + "\n        "@ + e1 + ": "@ + e1 + ",\n    "@ + "\n        "@ + e2 + ": "@ + e2 + ",\n"@
        + "}\n}\n"@
}

/// A fresh container file up to the `}` that closes its struct.
spec fn fresh_struct_part(m: Seq<char>, e: Seq<char>, p: Seq<char>) -> Seq<char> {
    "package entrypoints\n\nimport (\n    "@ + snake_case(m) + "h \""@ + p + "/src/entrypoints/rest/"@
        + snake_case(m) + "\"\n)\n\ntype "@ + m + "Container struct {\n    "@ + e + " "@ + m + "h."@
        + e + "\n"@
}

/// What follows the constructor signature, up to the `return` literal.
spec fn fresh_after_signature(m: Seq<char>) -> Seq<char> {
    " "@ + m + "Container {\n    "@
}

spec fn return_head(m: Seq<char>) -> Seq<char> {
    "return "@ + m + "Container{"@
}

spec fn first_entry(e: Seq<char>) -> Seq<char> {
    "\n        "@ + e + ": "@ + e + ",\n    "@
}

proof fn lemma_fresh_split(m: Seq<char>, e: Seq<char>, p: Seq<char>)
    ensures
        container_content(m, e, p) =~= fresh_struct_part(m, e, p) + "}\n\n"@
            + fresh_constructor_signature(m, e) + fresh_after_signature(m) + return_head(m)
            + first_entry(e) + "}\n}\n"@,
        fresh_struct_part(m, e, p).len() == fresh_struct_end(m, e, p),
{
    reveal(container_content);
    reveal_strlit("package entrypoints\n\nimport (\n    ");
    reveal_strlit("h \"");
    reveal_strlit("/src/entrypoints/rest/");
    reveal_strlit("\"\n)\n\ntype ");
    reveal_strlit("Container struct {\n    ");
    reveal_strlit(" ");
    reveal_strlit("h.");
    reveal_strlit("\n");
    reveal_strlit("\n}\n\nfunc New");
    reveal_strlit("}\n\n");
    reveal_strlit("func New");
    reveal_strlit("Container(");
    reveal_strlit(")");
    reveal_strlit(") ");
    reveal_strlit("Container {\n    ");
    reveal_strlit("Container {\n    return ");
    reveal_strlit("return ");
    reveal_strlit("Container{");
    reveal_strlit("Container{\n        ");
    reveal_strlit("\n        ");
    reveal_strlit(": ");
    reveal_strlit(",\n    ");
    reveal_strlit(",\n    }\n}\n");
    reveal_strlit("}\n}\n");
}

proof fn lemma_struct_part_parens(m: Seq<char>, e1: Seq<char>, e2: Seq<char>, p: Seq<char>)
    requires
        is_word(m),
        is_word(e1),
        is_word(e2),
        forall|k: int| 0 <= k < p.len() ==> #[trigger] p[k] != '(',
    ensures
        ({
            let a = fresh_struct_part(m, e1, p) + "\n"@ + "    "@ + handler_member(m, e2) + "\n"@
                + "}\n\n"@;
            &&& a.len() > 28
            &&& a[19] == '\n'
            &&& a[a.len() - 1] == '\n'
            &&& forall|x: int| 0 <= x < a.len() && a[x] == '(' ==> x == 28
        }),
{
    crate::wire_laws::lemma_names_are_words(m);
    reveal_strlit("package entrypoints\n\nimport (\n    ");
    reveal_strlit("h \"");
    reveal_strlit("/src/entrypoints/rest/");
    reveal_strlit("\"\n)\n\ntype ");
    reveal_strlit("Container struct {\n    ");
    reveal_strlit(" ");
    reveal_strlit("h.");
    reveal_strlit("\n");
    reveal_strlit("    ");
    reveal_strlit("}\n\n");
    let a = fresh_struct_part(m, e1, p) + "\n"@ + "    "@ + handler_member(m, e2) + "\n"@
        + "}\n\n"@;
    assert(a[19] == '\n');
    assert(a[28] == '(');
}

#[verifier::rlimit(60)]
proof fn lemma_signature_found_once(m: Seq<char>, e1: Seq<char>, e2: Seq<char>, p: Seq<char>)
    requires
        is_word(m),
        is_word(e1),
        is_word(e2),
        forall|k: int| 0 <= k < p.len() ==> #[trigger] p[k] != '(',
    ensures
        ({
            let a = fresh_struct_part(m, e1, p) + "\n"@ + "    "@ + handler_member(m, e2) + "\n"@
                + "}\n\n"@;
            let sig = fresh_constructor_signature(m, e1);
            let rest = fresh_after_signature(m) + return_head(m) + first_entry(e1) + "}\n}\n"@;
            let c = a + sig + rest;
            &&& find_first(c, sig) == Some(a.len() as int)
            &&& find_from(c, sig, (a.len() + sig.len()) as int) is None
        }),
{
    let a = fresh_struct_part(m, e1, p) + "\n"@ + "    "@ + handler_member(m, e2) + "\n"@
        + "}\n\n"@;
    let sig = fresh_constructor_signature(m, e1);
    let rest = fresh_after_signature(m) + return_head(m) + first_entry(e1) + "}\n}\n"@;
    let c = a + sig + rest;
    lemma_struct_part_parens(m, e1, e2, p);
    lemma_signature_chars(m, e1);
    let q = 17 + m.len() as int;
    let la = a.len() as int;
    assert(c.subrange(la, la + sig.len()) =~= sig);
    assert forall|j: int| 0 <= j < la implies !#[trigger] occurs_at(c, sig, j) by {
        if occurs_at(c, sig, j) {
            assert(c.subrange(j, j + sig.len())[q] == c[j + q]);
            if j + q < la {
                assert(c[j + q] == a[j + q]);
                assert(c.subrange(j, j + sig.len())[19 - j] == c[19]);
            } else {
                assert(c.subrange(j, j + sig.len())[la - 1 - j] == c[la - 1]);
            }
        }
    };
    lemma_find_from_is(c, sig, 0, la);
    assert forall|j: int| la + sig.len() <= j implies !#[trigger] occurs_at(c, sig, j) by {
        if occurs_at(c, sig, j) {
            assert(c.subrange(j, j + sig.len())[q] == c[j + q]);
            assert(c[j + q] == rest[j + q - la - sig.len()]);
        }
    };
    lemma_find_from_none(c, sig, la + sig.len());
}

proof fn lemma_fresh_signature_extended(m: Seq<char>, e1: Seq<char>, e2: Seq<char>)
    requires
        is_word(m),
        is_word(e1),
    ensures
        extended_signature(fresh_constructor_signature(m, e1), m, e2) =~= "func New"@ + m
            + "Container("@ + e1 + " "@ + m + "h."@ + e1 + ", "@ + handler_member(m, e2) + ")"@,
{
    let sig = fresh_constructor_signature(m, e1);
    let tail = ", "@ + handler_member(m, e2) + ")"@;
    reveal_strlit("func New");
    reveal_strlit("Container(");
    reveal_strlit(" ");
    reveal_strlit("h.");
    reveal_strlit(")");
    let l = sig.len() - 1;
    assert(sig.subrange(l, l + 1) =~= ")"@);
    assert forall|j: int| 0 <= j < l implies !#[trigger] occurs_at(sig, ")"@, j) by {
        if occurs_at(sig, ")"@, j) {
            assert(sig.subrange(j, j + 1)[0] == sig[j]);
        }
    };
    lemma_find_from_is(sig, ")"@, 0, l);
    assert(find_from(sig, ")"@, l + 1) is None);
    assert(replace_from(sig, ")"@, tail, l + 1) =~= Seq::<char>::empty());
    assert(replace_all(sig, ")"@, tail) =~= sig.subrange(0, l) + tail + Seq::<char>::empty());
}

proof fn lemma_struct_part_braces(m: Seq<char>, e1: Seq<char>, e2: Seq<char>, p: Seq<char>)
    requires
        is_word(m),
        is_word(e1),
        is_word(e2),
        forall|k: int| 0 <= k < p.len() ==> #[trigger] p[k] != '{',
    ensures
        ({
            let a = fresh_struct_part(m, e1, p) + "\n"@ + "    "@ + handler_member(m, e2) + "\n"@
                + "}\n\n"@;
            forall|x: int| 0 <= x < a.len() && #[trigger] a[x] == '{' ==> x >= 1 && a[x - 1] == ' '
        }),
{
    crate::wire_laws::lemma_names_are_words(m);
    reveal_strlit("package entrypoints\n\nimport (\n    ");
    reveal_strlit("h \"");
    reveal_strlit("/src/entrypoints/rest/");
    reveal_strlit("\"\n)\n\ntype ");
    reveal_strlit("Container struct {\n    ");
    reveal_strlit(" ");
    reveal_strlit("h.");
    reveal_strlit("\n");
    reveal_strlit("    ");
    reveal_strlit("}\n\n");
}

proof fn lemma_constructor_braces(m: Seq<char>, e1: Seq<char>, e2: Seq<char>)
    requires
        is_word(m),
        is_word(e1),
        is_word(e2),
    ensures
        ({
            let ext = "func New"@ + m + "Container("@ + e1 + " "@ + m + "h."@ + e1 + ", "@
                + handler_member(m, e2) + ")"@;
            let af = fresh_after_signature(m);
            let ret = return_head(m);
            &&& forall|x: int| 0 <= x < ext.len() ==> #[trigger] ext[x] != '{'
            &&& forall|x: int|
                0 <= x < af.len() && #[trigger] af[x] == '{' ==> x >= 1 && af[x - 1] == ' '
            &&& forall|x: int| 0 <= x < ret.len() - 1 ==> #[trigger] ret[x] != '{'
            &&& forall|x: int| 0 <= x < ret.len() ==> #[trigger] ret[x] != '}'
            &&& ret.len() >= 2 && ret[ret.len() - 1] == '{' && ret[ret.len() - 2] == 'r'
            &&& forall|x: int| 0 <= x < first_entry(e1).len() ==> #[trigger] first_entry(e1)[x] != '}'
        }),
{
    reveal_strlit("func New");
    reveal_strlit("Container(");
    reveal_strlit(", ");
    reveal_strlit(" ");
    reveal_strlit("h.");
    reveal_strlit(")");
    reveal_strlit("Container {\n    ");
    reveal_strlit("return ");
    reveal_strlit("Container{");
    reveal_strlit("\n        ");
    reveal_strlit(": ");
    reveal_strlit(",\n    ");
}

proof fn lemma_return_found(m: Seq<char>, e1: Seq<char>, e2: Seq<char>, p: Seq<char>)
    requires
        is_word(m),
        is_word(e1),
        is_word(e2),
        forall|k: int| 0 <= k < p.len() ==> #[trigger] p[k] != '{',
    ensures
        ({
            let a = fresh_struct_part(m, e1, p) + "\n"@ + "    "@ + handler_member(m, e2) + "\n"@
                + "}\n\n"@;
            let ext = "func New"@ + m + "Container("@ + e1 + " "@ + m + "h."@ + e1 + ", "@
                + handler_member(m, e2) + ")"@;
            let r = a + ext + fresh_after_signature(m) + return_head(m) + first_entry(e1)
                + "}\n}\n"@;
            let s = a.len() + ext.len() + fresh_after_signature(m).len();
            &&& find_first(r, return_head(m)) == Some(s as int)
            &&& find_from(r, "}"@, s as int) == Some(
                (s + return_head(m).len() + first_entry(e1).len()) as int,
            )
        }),
{
    lemma_struct_part_braces(m, e1, e2, p);
    lemma_constructor_braces(m, e1, e2);
    reveal_strlit("}");
    reveal_strlit("}\n}\n");
    let a = fresh_struct_part(m, e1, p) + "\n"@ + "    "@ + handler_member(m, e2) + "\n"@
        + "}\n\n"@;
    let ext = "func New"@ + m + "Container("@ + e1 + " "@ + m + "h."@ + e1 + ", "@
        + handler_member(m, e2) + ")"@;
    let af = fresh_after_signature(m);
    let ret = return_head(m);
    let en = first_entry(e1);
    let r = a + ext + af + ret + en + "}\n}\n"@;
    let la = a.len() as int;
    let lx = ext.len() as int;
    let s = la + lx + af.len();
    let lr = ret.len() as int;
    assert(r.subrange(s, s + lr) =~= ret);
    assert forall|j: int| 0 <= j < s implies !#[trigger] occurs_at(r, ret, j) by {
        if occurs_at(r, ret, j) {
            let y = j + lr - 1;
            assert(r.subrange(j, j + lr)[lr - 1] == r[y]);
            assert(r.subrange(j, j + lr)[lr - 2] == r[y - 1]);
            if y < la {
                assert(r[y] == a[y]);
                assert(r[y - 1] == a[y - 1]);
            } else if y < la + lx {
                assert(r[y] == ext[y - la]);
            } else if y < s {
                assert(r[y] == af[y - la - lx]);
                assert(r[y - 1] == af[y - 1 - la - lx]);
            } else {
                assert(r[y] == ret[y - s]);
            }
        }
    };
    lemma_find_from_is(r, ret, 0, s);
    let cb = s + lr + en.len();
    assert(r.subrange(cb, cb + 1) =~= "}"@);
    assert forall|j: int| s <= j < cb implies !#[trigger] occurs_at(r, "}"@, j) by {
        if occurs_at(r, "}"@, j) {
            assert(r.subrange(j, j + 1)[0] == r[j]);
            if j < s + lr {
                assert(r[j] == ret[j - s]);
            } else {
                assert(r[j] == en[j - s - lr]);
            }
        }
    };
    lemma_find_from_is(r, "}"@, s, cb);
}

#[verifier::rlimit(80)]
proof fn lemma_fresh_constructor_step(m: Seq<char>, e1: Seq<char>, e2: Seq<char>, p: Seq<char>)
    requires
        is_word(m),
        is_word(e1),
        is_word(e2),
        forall|k: int| 0 <= k < p.len() ==> #[trigger] p[k] != '{',
        forall|k: int| 0 <= k < p.len() ==> #[trigger] p[k] != '(',
    ensures
        container_constructor_step(
            insert_at(
                container_content(m, e1, p),
                fresh_struct_end(m, e1, p),
                "\n"@ + "    "@ + handler_member(m, e2) + "\n"@,
            ),
            Some(fresh_constructor_signature(m, e1)),
            m,
            e2,
        ) == Ok::<_, EditError>(two_handler_container(m, e1, e2, p)),
        contains_seq(
            insert_at(
                container_content(m, e1, p),
                fresh_struct_end(m, e1, p),
                "\n"@ + "    "@ + handler_member(m, e2) + "\n"@,
            ),
            fresh_constructor_signature(m, e1),
        ),
{
    let t = container_content(m, e1, p);
    let field = "\n"@ + "    "@ + handler_member(m, e2) + "\n"@;
    let hd = fresh_struct_part(m, e1, p);
    let a = fresh_struct_part(m, e1, p) + "\n"@ + "    "@ + handler_member(m, e2) + "\n"@
        + "}\n\n"@;
    let sig = fresh_constructor_signature(m, e1);
    let af = fresh_after_signature(m);
    let ret = return_head(m);
    let en = first_entry(e1);
    let rest = af + ret + en + "}\n}\n"@;
    lemma_fresh_split(m, e1, p);
    let cb = fresh_struct_end(m, e1, p);
    assert(t.take(cb) =~= hd);
    assert(t.skip(cb) =~= "}\n\n"@ + sig + rest);
    let c2 = insert_at(t, cb, field);
    assert(c2 =~= a + sig + rest);
    lemma_signature_found_once(m, e1, e2, p);
    lemma_fresh_signature_extended(m, e1, e2);
    let ext = extended_signature(sig, m, e2);
    let la = a.len() as int;
    let ls = sig.len() as int;
    reveal_strlit("func New");
    assert(ls > 0);
    assert(c2 == a + sig + rest);
    assert(find_from(c2, sig, 0) == Some(la));
    assert(find_from(c2, sig, la + ls) is None);
    assert(c2.len() == la + ls + rest.len());
    assert(replace_from(c2, sig, ext, la + ls) == c2.subrange(la + ls, c2.len() as int));
    assert(c2.subrange(la + ls, c2.len() as int) =~= rest);
    assert(replace_from(c2, sig, ext, 0) == c2.subrange(0, la) + ext + replace_from(
        c2,
        sig,
        ext,
        la + ls,
    ));
    assert(c2.subrange(0, la) =~= a);
    let r = a + ext + af + ret + en + "}\n}\n"@;
    assert(replace_all(c2, sig, ext) =~= r);
    lemma_return_found(m, e1, e2, p);
    lemma_two_handler_layout(m, e1, e2, p);
}

proof fn lemma_two_handler_layout(m: Seq<char>, e1: Seq<char>, e2: Seq<char>, p: Seq<char>)
    ensures
        ({
            let a = fresh_struct_part(m, e1, p) + "\n"@ + "    "@ + handler_member(m, e2) + "\n"@
                + "}\n\n"@;
            let ext = "func New"@ + m + "Container("@ + e1 + " "@ + m + "h."@ + e1 + ", "@
                + handler_member(m, e2) + ")"@;
            let r = a + ext + fresh_after_signature(m) + return_head(m) + first_entry(e1)
                + "}\n}\n"@;
            let close = a.len() + ext.len() + fresh_after_signature(m).len() + return_head(m).len()
                + first_entry(e1).len();
            insert_at(r, close as int, "\n        "@ + e2 + ": "@ + e2 + ",\n"@)
                =~= two_handler_container(m, e1, e2, p)
        }),
{
    let mi = snake_case(m);
    let a = fresh_struct_part(m, e1, p) + "\n"@ + "    "@ + handler_member(m, e2) + "\n"@
        + "}\n\n"@;
    let ext = "func New"@ + m + "Container("@ + e1 + " "@ + m + "h."@ + e1 + ", "@
        + handler_member(m, e2) + ")"@;
    let x = a + ext + fresh_after_signature(m) + return_head(m) + first_entry(e1);
    let r = x + "}\n}\n"@;
    let entry = "\n        "@ + e2 + ": "@ + e2 + ",\n"@;
    assert(r.take(x.len() as int) =~= x);
    assert(r.skip(x.len() as int) =~= "}\n}\n"@);
    assert(insert_at(r, x.len() as int, entry) == x + entry + "}\n}\n"@);
    let p1 = "package entrypoints\n\nimport (\n    "@ + mi + "h \""@ + p + "/src/entrypoints/rest/"@ + mi
        + "\"\n)\n\ntype "@ + m + "Container struct {\n    "@ + e1 + " "@ + m + "h."@ + e1 + "\n"@
        + "\n    "@ + e2 + " "@ + m + "h."@ + e2 + "\n"@ + "}\n\n"@;
    lemma_layout_struct(m, e1, e2, p);
    assert(a == p1);
    lemma_layout_signature(p1, m, e1, e2);
    let p2 = p1 + "func New"@ + m + "Container("@ + e1 + " "@ + m + "h."@ + e1 + ", "@ + e2 + " "@
        + m + "h."@ + e2 + ")"@;
    assert(a + ext == p2);
    lemma_layout_tail(p2, m, e1, e2);
}

proof fn lemma_layout_struct(m: Seq<char>, e1: Seq<char>, e2: Seq<char>, p: Seq<char>)
    ensures
        fresh_struct_part(m, e1, p) + "\n"@ + "    "@ + handler_member(m, e2) + "\n"@ + "}\n\n"@
            =~= "package entrypoints\n\nimport (\n    "@ + snake_case(m) + "h \""@ + p
            + "/src/entrypoints/rest/"@ + snake_case(m) + "\"\n)\n\ntype "@ + m
            + "Container struct {\n    "@ + e1 + " "@ + m + "h."@ + e1 + "\n"@ + "\n    "@ + e2 + " "@
            + m + "h."@ + e2 + "\n"@ + "}\n\n"@,
{
    reveal_strlit("\n    ");
    reveal_strlit("\n");
    reveal_strlit("    ");
    assert("\n    "@ =~= "\n"@ + "    "@);
    let f = fresh_struct_part(m, e1, p);
    assert(f + "\n"@ + "    "@ + handler_member(m, e2) =~= f + "\n    "@ + e2 + " "@ + m + "h."@
        + e2);
}

proof fn lemma_layout_signature(x: Seq<char>, m: Seq<char>, e1: Seq<char>, e2: Seq<char>)
    ensures
        x + ("func New"@ + m + "Container("@ + e1 + " "@ + m + "h."@ + e1 + ", "@ + handler_member(
            m,
            e2,
        ) + ")"@) =~= x + "func New"@ + m + "Container("@ + e1 + " "@ + m + "h."@ + e1 + ", "@ + e2
            + " "@ + m + "h."@ + e2 + ")"@,
{
}

proof fn lemma_layout_tail(x: Seq<char>, m: Seq<char>, e1: Seq<char>, e2: Seq<char>)
    ensures
        x + fresh_after_signature(m) + return_head(m) + first_entry(e1) + ("\n        "@ + e2 + ": "@
            + e2 + ",\n"@) + "}\n}\n"@ =~= x + " "@ + m + "Container {\n    "@ + "return "@ + m
            + "Container{"@ + "\n        "@ + e1 + ": "@ + e1 + ",\n    "@ + "\n        "@ + e2
            + ": "@ + e2 + ",\n"@ + "}\n}\n"@,
{
}

proof fn lemma_signature_chars(m: Seq<char>, e1: Seq<char>)
    requires
        is_word(m),
        is_word(e1),
    ensures
        ({
            let sig = fresh_constructor_signature(m, e1);
            let rest = fresh_after_signature(m) + return_head(m) + first_entry(e1) + "}\n}\n"@;
            &&& sig.len() > 17 + m.len()
            &&& sig[17 + m.len() as int] == '('
            &&& forall|k: int| 0 <= k < sig.len() ==> #[trigger] sig[k] != '\n'
            &&& forall|k: int| 0 <= k < rest.len() ==> #[trigger] rest[k] != '('
        }),
{
    reveal_strlit("func New");
    reveal_strlit("Container(");
    reveal_strlit(" ");
    reveal_strlit("h.");
    reveal_strlit(")");
    reveal_strlit("Container {\n    ");
    reveal_strlit("return ");
    reveal_strlit("Container{");
    reveal_strlit("\n        ");
    reveal_strlit(": ");
    reveal_strlit(",\n    ");
    reveal_strlit("}\n}\n");
}

proof fn lemma_occurs_then_contains(s: Seq<char>, p: Seq<char>, j: int)
    requires
        occurs_at(s, p, j),
    ensures
        contains_seq(s, p),
{
    lemma_find_from(s, p, 0);
}

proof fn lemma_head_plain(m: Seq<char>)
    requires
        is_word(m),
    ensures
        forall|k: int|
            0 <= k < constructor_head(m).len() ==> #[trigger] constructor_head(m)[k] != '('
                && constructor_head(m)[k] != ')' && constructor_head(m)[k] != '}',
        constructor_head(m).len() > 0,
{
    reveal_strlit("func New");
    reveal_strlit("Container");
    let h = constructor_head(m);
    assert forall|k: int| 0 <= k < h.len() implies #[trigger] h[k] != '(' && h[k] != ')' && h[k]
        != '}' by {
        if 8 <= k < 8 + m.len() {
            assert(h[k] == m[k - 8]);
            assert(is_word_char(m[k - 8]));
        }
    };
}

/// In `before + head + rest`, where `head` holds no `(` and `before` does
/// not hold `head(`, no `head(` starts inside `before`.
proof fn lemma_no_open_in_before(before: Seq<char>, head: Seq<char>, rest: Seq<char>, j: int)
    requires
        forall|k: int| 0 <= k < head.len() ==> #[trigger] head[k] != '(',
        !contains_seq(before, head + "("@),
        0 <= j < before.len(),
    ensures
        !occurs_at(before + head + rest, head + "("@, j),
{
    let c = before + head + rest;
    let o = head + "("@;
    reveal_strlit("(");
    if occurs_at(c, o, j) {
        let q = j + head.len();
        assert(c.subrange(j, j + o.len())[head.len() as int] == c[q]);
        if q < before.len() {
            assert(before.subrange(j, j + o.len()) =~= o) by {
                assert forall|t: int| 0 <= t < o.len() implies before.subrange(j, j + o.len())[t]
                    == o[t] by {
                    assert(c.subrange(j, j + o.len())[t] == c[j + t]);
                };
            };
            lemma_occurs_then_contains(before, o, j);
        } else {
            assert(c[q] == head[q - before.len()]);
        }
    }
}

proof fn lemma_signature_extended(head: Seq<char>, params: Seq<char>, m: Seq<char>, e: Seq<char>)
    requires
        forall|k: int| 0 <= k < head.len() ==> #[trigger] head[k] != ')',
        forall|k: int| 0 <= k < params.len() ==> #[trigger] params[k] != ')',
    ensures
        extended_signature(head + "("@ + params + ")"@, m, e) =~= head + "("@ + params + ", "@
            + handler_member(m, e) + ")"@,
{
    let sig = head + "("@ + params + ")"@;
    let tail = ", "@ + handler_member(m, e) + ")"@;
    reveal_strlit("(");
    reveal_strlit(")");
    reveal_strlit(", ");
    let l = sig.len() - 1;
    assert(sig.subrange(l, l + 1) =~= ")"@);
    assert forall|j: int| 0 <= j < l implies !#[trigger] occurs_at(sig, ")"@, j) by {
        if occurs_at(sig, ")"@, j) {
            assert(sig.subrange(j, j + 1)[0] == sig[j]);
        }
    };
    lemma_find_from_is(sig, ")"@, 0, l);
    assert(find_from(sig, ")"@, l + 1) is None);
    assert(replace_from(sig, ")"@, tail, l + 1) =~= Seq::<char>::empty());
    assert(replace_all(sig, ")"@, tail) =~= sig.subrange(0, l) + tail + Seq::<char>::empty());
}

/// Inserting before a `}` keeps every text without `}` that occurs.
proof fn lemma_insert_at_brace_keeps(s: Seq<char>, x: Seq<char>, t: int, k: int, ins: Seq<char>)
    requires
        occurs_at(s, x, t),
        0 <= k < s.len(),
        s[k] == '}',
        forall|q: int| 0 <= q < x.len() ==> #[trigger] x[q] != '}',
    ensures
        contains_seq(insert_at(s, k, ins), x),
{
    let r = insert_at(s, k, ins);
    if k <= t {
        assert(r.subrange(t + ins.len(), t + ins.len() + x.len()) =~= s.subrange(t, t + x.len()));
        lemma_occurs_then_contains(r, x, t + ins.len());
    } else if k >= t + x.len() {
        assert(r.subrange(t, t + x.len()) =~= s.subrange(t, t + x.len()));
        lemma_occurs_then_contains(r, x, t);
    } else {
        assert(s.subrange(t, t + x.len())[k - t] == s[k]);
    }
}

proof fn lemma_signature_first(before: Seq<char>, module: Seq<char>, params: Seq<char>, after: Seq<char>)
    requires
        is_word(module),
        forall|k: int| 0 <= k < params.len() ==> #[trigger] params[k] != ')' && params[k] != '\n',
        !contains_seq(before, constructor_head(module) + "("@),
    ensures
        ({
            let sig = constructor_head(module) + "("@ + params + ")"@;
            let c2 = before + constructor_head(module) + "("@ + params + ")"@ + after;
            &&& c2 == before + sig + after
            &&& first_paren_list(c2, constructor_head(module), 0) == Some(sig)
            &&& find_first(c2, sig) == Some(before.len() as int)
        }),
{
    let h = constructor_head(module);
    let o = h + "("@;
    let sig = h + "("@ + params + ")"@;
    let c2 = before + h + "("@ + params + ")"@ + after;
    let lb = before.len() as int;
    reveal_strlit("(");
    reveal_strlit(")");
    lemma_head_plain(module);
    assert(c2 =~= before + h + (("("@ + params + ")"@) + after));
    assert(c2 =~= before + sig + after);
    assert(c2.subrange(lb, lb + sig.len()) =~= sig);
    assert(sig.take(h.len() as int) =~= h);
    assert(is_paren_list(h, sig));
    assert forall|x: Seq<char>, i: int|
        is_paren_list(h, x) && #[trigger] occurs_at(c2, x, i) implies lb <= i by {
        if i < lb {
            assert(c2.subrange(i, i + o.len()) =~= o) by {
                assert forall|t: int| 0 <= t < o.len() implies c2.subrange(i, i + o.len())[t]
                    == o[t] by {
                    assert(c2.subrange(i, i + x.len())[t] == c2[i + t]);
                    if t < h.len() {
                        assert(x.take(h.len() as int)[t] == x[t]);
                    }
                };
            };
            lemma_no_open_in_before(before, h, ("("@ + params + ")"@) + after, i);
        }
    };
    lemma_first_paren_list_found(c2, h, before, sig, after);
    assert forall|j: int| 0 <= j < lb implies !#[trigger] occurs_at(c2, sig, j) by {
        if occurs_at(c2, sig, j) {
            assert(c2.subrange(j, j + o.len()) =~= o) by {
                assert forall|t: int| 0 <= t < o.len() implies c2.subrange(j, j + o.len())[t]
                    == o[t] by {
                    assert(c2.subrange(j, j + sig.len())[t] == c2[j + t]);
                };
            };
            lemma_no_open_in_before(before, h, ("("@ + params + ")"@) + after, j);
        }
    };
    lemma_find_from_is(c2, sig, 0, lb);
}

proof fn lemma_extended_no_brace(module: Seq<char>, params: Seq<char>, endpoint: Seq<char>)
    requires
        is_word(module),
        forall|k: int| 0 <= k < params.len() ==> #[trigger] params[k] != ')' && params[k] != '}',
        forall|k: int| 0 <= k < endpoint.len() ==> #[trigger] endpoint[k] != '}',
    ensures
        ({
            let ext = extended_signature(
                constructor_head(module) + "("@ + params + ")"@,
                module,
                endpoint,
            );
            &&& ext == constructor_head(module) + "("@ + params + ", "@ + handler_member(
                module,
                endpoint,
            ) + ")"@
            &&& forall|q: int| 0 <= q < ext.len() ==> #[trigger] ext[q] != '}'
        }),
{
    let h = constructor_head(module);
    reveal_strlit("(");
    reveal_strlit(")");
    reveal_strlit(", ");
    reveal_strlit(" ");
    reveal_strlit("h.");
    lemma_head_plain(module);
    lemma_signature_extended(h, params, module, endpoint);
    let ext = extended_signature(h + "("@ + params + ")"@, module, endpoint);
    assert forall|q: int| 0 <= q < ext.len() implies #[trigger] ext[q] != '}' by {
        let a1 = h + "("@;
        let a2 = a1 + params;
        let a3 = a2 + ", "@;
        let a4 = a3 + endpoint;
        let a5 = a4 + " "@;
        let a6 = a5 + module;
        let a7 = a6 + "h."@;
        let a8 = a7 + endpoint;
        assert(ext =~= a8 + ")"@);
        if q < h.len() {
        } else if q < a1.len() {
        } else if q < a2.len() {
            assert(ext[q] == params[q - a1.len()]);
        } else if q < a3.len() {
        } else if q < a4.len() {
            assert(ext[q] == endpoint[q - a3.len()]);
        } else if q < a5.len() {
        } else if q < a6.len() {
            assert(ext[q] == module[q - a5.len()]);
            assert(is_word_char(module[q - a5.len()]));
        } else if q < a7.len() {
        } else if q < a8.len() {
            assert(ext[q] == endpoint[q - a7.len()]);
        }
    };
}

proof fn lemma_replaced_shape(before: Seq<char>, sig: Seq<char>, after: Seq<char>, ext: Seq<char>)
    requires
        sig.len() > 0,
        find_first(before + sig + after, sig) == Some(before.len() as int),
    ensures
        replace_all(before + sig + after, sig, ext) == before + ext + replace_from(
            before + sig + after,
            sig,
            ext,
            (before.len() + sig.len()) as int,
        ),
        !contains_seq(after, sig) ==> replace_from(
            before + sig + after,
            sig,
            ext,
            (before.len() + sig.len()) as int,
        ) == after,
{
    let c2 = before + sig + after;
    let lb = before.len() as int;
    let ls = sig.len() as int;
    assert(c2.subrange(0, lb) =~= before);
    if !contains_seq(after, sig) {
        lemma_find_from(after, sig, 0);
        assert forall|j: int| lb + ls <= j implies !#[trigger] occurs_at(c2, sig, j) by {
            if occurs_at(c2, sig, j) {
                assert(after.subrange(j - lb - ls, j - lb - ls + sig.len()) =~= c2.subrange(
                    j,
                    j + sig.len(),
                ));
                assert(occurs_at(after, sig, j - lb - ls));
            }
        };
        lemma_find_from_none(c2, sig, lb + ls);
        assert(c2.subrange(lb + ls, c2.len() as int) =~= after);
    }
}

/// The constructor step, given a signature that stands once before the
/// text `after`, keeps the extended signature and, when `after` holds the
/// `return` literal, puts the entry before a `}`.
proof fn lemma_step_result(before: Seq<char>, sig: Seq<char>, after: Seq<char>, module: Seq<char>, endpoint: Seq<char>)
    requires
        sig.len() > 0,
        find_first(before + sig + after, sig) == Some(before.len() as int),
        forall|q: int|
            0 <= q < extended_signature(sig, module, endpoint).len() ==> #[trigger] extended_signature(
                sig,
                module,
                endpoint,
            )[q] != '}',
    ensures
        container_constructor_step(before + sig + after, Some(sig), module, endpoint) matches Ok(s)
            ==> contains_seq(s, extended_signature(sig, module, endpoint)),
        container_constructor_step(before + sig + after, Some(sig), module, endpoint) matches Ok(s)
            ==> (contains_seq(after, "return "@ + module + "Container{"@) && !contains_seq(after, sig)
            ==> contains_seq(s, "\n        "@ + endpoint + ": "@ + endpoint + ",\n}"@)),
{
    let c2 = before + sig + after;
    let ext = extended_signature(sig, module, endpoint);
    let lb = before.len() as int;
    lemma_replaced_shape(before, sig, after, ext);
    let tailr = replace_from(c2, sig, ext, lb + sig.len());
    let rr = before + ext + tailr;
    assert(rr.subrange(lb, lb + ext.len()) =~= ext);
    lemma_occurs_then_contains(rr, ext, lb);
    let ret = "return "@ + module + "Container{"@;
    let entry = "\n        "@ + endpoint + ": "@ + endpoint + ",\n"@;
    if !contains_seq(after, sig) && contains_seq(after, ret) {
        lemma_find_from(after, ret, 0);
        let pa = find_first(after, ret)->0;
        let off = lb + ext.len();
        assert(rr.subrange(off + pa, off + pa + ret.len()) =~= after.subrange(pa, pa + ret.len()));
        lemma_occurs_then_contains(rr, ret, off + pa);
    }
    match find_first(rr, ret) {
        None => {},
        Some(st) => {
            lemma_find_from(rr, ret, 0);
            lemma_find_from(rr, "}"@, st);
            if let Some(k) = find_from(rr, "}"@, st) {
                reveal_strlit("}");
                assert(rr.subrange(k, k + 1)[0] == rr[k]);
                lemma_insert_at_brace_keeps(rr, ext, lb, k, entry);
                let s2 = insert_at(rr, k, entry);
                reveal_strlit("\n        ");
                reveal_strlit(": ");
                reveal_strlit(",\n");
                reveal_strlit(",\n}");
                let ent = "\n        "@ + endpoint + ": "@ + endpoint + ",\n}"@;
                assert(s2.subrange(k, k + ent.len()) =~= ent);
                lemma_occurs_then_contains(s2, ent, k);
            }
        },
    }
}

/// Registering a handler in a container file whose constructor is
/// `func New<M>Container(<P>)`, with `<P>` any parameter list on one line
/// (no `)`, no line break, no `}`), and that holds no earlier
/// `func New<M>Container(`: the constructor signature gets the handler as
/// its last parameter, `func New<M>Container(<P>, <E> <M>h.<E>)`; and when
/// the text after the signature holds the `return <M>Container{` literal
/// (and not the signature again), the entry `<E>: <E>,` goes right before
/// the literal's closing `}`. The file is the one after the import and
/// field steps; the module is an ASCII word and the endpoint holds no `}`.
pub proof fn law_constructor_gets_new_parameter(
    content: Seq<char>,
    module: Seq<char>,
    endpoint: Seq<char>,
    project_name: Seq<char>,
    before: Seq<char>,
    params: Seq<char>,
    after: Seq<char>,
)
    requires
        is_word(module),
        forall|k: int|
            0 <= k < params.len() ==> #[trigger] params[k] != ')' && params[k] != '\n' && params[k]
                != '}',
        forall|k: int| 0 <= k < endpoint.len() ==> #[trigger] endpoint[k] != '}',
        !contains_seq(before, constructor_head(module) + "("@),
        container_import_step(content, module, project_name) matches Ok(c1)
            && container_field_step(c1, module, endpoint) == Ok::<_, EditError>(
            before + constructor_head(module) + "("@ + params + ")"@ + after,
        ),
    ensures
        container_edit_by_signature(content, module, endpoint, project_name) matches Ok(s)
            ==> contains_seq(
            s,
            constructor_head(module) + "("@ + params + ", "@ + handler_member(module, endpoint)
                + ")"@,
        ),
        container_edit_by_signature(content, module, endpoint, project_name) matches Ok(s)
            ==> (contains_seq(after, "return "@ + module + "Container{"@) && !contains_seq(
            after,
            constructor_head(module) + "("@ + params + ")"@,
        ) ==> contains_seq(s, "\n        "@ + endpoint + ": "@ + endpoint + ",\n}"@)),
{
    let h = constructor_head(module);
    let sig = h + "("@ + params + ")"@;
    let c2 = before + h + "("@ + params + ")"@ + after;
    lemma_signature_first(before, module, params, after);
    reveal_strlit(")");
    assert(sig.len() > 0);
    lemma_extended_no_brace(module, params, endpoint);
    lemma_step_result(before, sig, after, module, endpoint);
}

/// The field step puts the handler's field inside the container struct:
/// when the file holds the struct header `type <M>Container struct {`, the
/// header is still first found where it was, and the struct, from its
/// header to its first `}`, holds the new field line. The module and the
/// endpoint hold no `}` (which would end the struct early).
pub proof fn law_container_field_in_struct(content: Seq<char>, module: Seq<char>, endpoint: Seq<char>)
    requires
        forall|k: int| 0 <= k < module.len() ==> #[trigger] module[k] != '}',
        forall|k: int| 0 <= k < endpoint.len() ==> #[trigger] endpoint[k] != '}',
    ensures
        container_field_step(content, module, endpoint) matches Ok(r) ==> (find_first(
            content,
            "type "@ + module + "Container struct {"@,
        ) matches Some(start) ==> (find_first(r, "type "@ + module + "Container struct {"@) == Some(
            start,
        ) && (find_from(r, "}"@, start) matches Some(e) && contains_seq(
            r.subrange(start, e),
            "\n"@ + "    "@ + handler_member(module, endpoint) + "\n"@,
        )))),
{
    let h = "type "@ + module + "Container struct {"@;
    let f = "\n"@ + "    "@ + handler_member(module, endpoint) + "\n"@;
    reveal_strlit("type ");
    reveal_strlit("Container struct {");
    reveal_strlit("\n");
    reveal_strlit("    ");
    reveal_strlit(" ");
    reveal_strlit("h.");
    assert forall|k: int| 0 <= k < h.len() implies #[trigger] h[k] != '}' by {
        if 5 <= k < 5 + module.len() {
            assert(h[k] == module[k - 5]);
        }
    };
    assert forall|k: int| 0 <= k < f.len() implies #[trigger] f[k] != '}' by {
        let a1 = "\n"@ + "    "@;
        let a2 = a1 + endpoint;
        let a3 = a2 + " "@;
        let a4 = a3 + module;
        let a5 = a4 + "h."@;
        let a6 = a5 + endpoint;
        assert(f =~= a6 + "\n"@);
        if k < a1.len() {
        } else if k < a2.len() {
            assert(f[k] == endpoint[k - a1.len()]);
        } else if k < a3.len() {
        } else if k < a4.len() {
            assert(f[k] == module[k - a3.len()]);
        } else if k < a5.len() {
        } else if k < a6.len() {
            assert(f[k] == endpoint[k - a5.len()]);
        }
    };
    if let Some(start) = find_first(content, h) {
        lemma_find_from(content, h, 0);
        lemma_find_from(content, "}"@, start);
        if let Some(end) = find_from(content, "}"@, start) {
            let c1 = insert_at(content, end, f);
            assert(start + h.len() <= end) by {
                if end < start + h.len() {
                    crate::handlers::lemma_brace_occurs(content, end);
                    assert(content.subrange(start, start + h.len())[end - start] == content[end]);
                }
            };
            assert forall|j: int| 0 <= j < end implies c1[j] == content[j] by {};
            assert forall|j: int| 0 <= j < start implies !#[trigger] occurs_at(c1, h, j) by {
                assert(!occurs_at(content, h, j));
                if occurs_at(c1, h, j) {
                    assert(c1.subrange(j, j + h.len()) =~= content.subrange(j, j + h.len()));
                }
            };
            assert(c1.subrange(start, start + h.len()) =~= content.subrange(start, start + h.len()));
            lemma_find_from_is(c1, h, 0, start);
            let end1 = end + f.len();
            assert forall|j: int| start <= j < end1 implies !#[trigger] occurs_at(c1, "}"@, j) by {
                crate::handlers::lemma_brace_occurs(c1, j);
                if j < end {
                    crate::handlers::lemma_brace_occurs(content, j);
                } else {
                    assert(c1[j] == f[j - end]);
                }
            };
            crate::handlers::lemma_brace_occurs(content, end);
            crate::handlers::lemma_brace_occurs(c1, end1);
            assert(c1[end1] == content[end]);
            lemma_find_from_is(c1, "}"@, start, end1);
            let body = c1.subrange(start, end1);
            assert(body.subrange(end - start, end1 - start) =~= f);
            lemma_occurs_then_contains(body, f, end - start);
            assert(container_field_step(content, module, endpoint) == Ok::<_, EditError>(c1));
            assert(find_from(c1, "}"@, start) == Some(end1));
            assert(find_first(c1, h) == Some(start));
        }
    }
}

} // verus!
