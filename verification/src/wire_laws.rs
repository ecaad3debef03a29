//! Laws of the Wire injector edit: registering a second endpoint of a module
//! extends the builder that the first registration created.
use vstd::prelude::*;
use crate::search::{
    contains_seq, find_first, find_from, lemma_find_from, lemma_find_from_is,
    lemma_rfind_char_before, occurs_at, rfind_char_before,
};
use crate::edit::{insert_at, EditError};
use crate::naming::{capitalized, snake_case, snake_piece, snake_prefix};
use crate::text::{ascii_lower, ascii_upper, upper_text};
use crate::wire::{
    builder_function, builder_head, builder_opening, builder_providers, ensure_import,
    existing_builder_unanchored, rest_import, usecase_import, wire_build_anchor, wire_edit,
    wire_import_position, wire_with_imports, with_builder_reference, with_existing_builder,
};

verus! {

/// An ASCII letter, digit or `_`.
pub open spec fn is_word_char(c: char) -> bool {
    ||| 'a' <= c <= 'z'
    ||| 'A' <= c <= 'Z'
    ||| '0' <= c <= '9'
    ||| c == '_'
}

/// Every character of `s` is an ASCII letter, digit or `_`.
pub open spec fn is_word(s: Seq<char>) -> bool {
    forall|k: int| 0 <= k < s.len() ==> is_word_char(#[trigger] s[k])
}

proof fn lemma_occ_char(s: Seq<char>, pat: Seq<char>, j: int, i: int)
    requires
        occurs_at(s, pat, j),
        0 <= i < pat.len(),
    ensures
        s[j + i] == pat[i],
{
    assert(s.subrange(j, j + pat.len())[i] == s[j + i]);
}

/// Where each piece of a new builder's opening lies, and what it holds.
proof fn lemma_opening_layout(mc: Seq<char>)
    ensures
        ({
            let o = builder_opening(mc);
            let p1 = "(conf *config.Config, logger *zap.Logger, db *gorm.DB) entrypoints."@;
            &&& o.len() == 2 + 10 + mc.len() + 9 + p1.len() + mc.len() + 9 + 4
            &&& o[0] == '\n' && o[1] == '\n'
            &&& forall|t: int| 0 <= t < 10 ==> o[2 + t] == #[trigger] "func build"@[t]
            &&& forall|t: int| 0 <= t < mc.len() ==> o[12 + t] == #[trigger] mc[t]
            &&& forall|t: int| 0 <= t < 9 ==> o[12 + mc.len() + t] == #[trigger] "Container"@[t]
            &&& forall|t: int| 0 <= t < p1.len() ==> o[21 + mc.len() + t] == #[trigger] p1[t]
            &&& forall|t: int| 0 <= t < mc.len() ==> o[21 + mc.len() + p1.len() + t] == #[trigger] mc[t]
            &&& forall|t: int| 0 <= t < 9 ==> o[21 + 2 * mc.len() + p1.len() + t] == #[trigger] "Container"@[t]
            &&& forall|t: int| 0 <= t < 4 ==> o[30 + 2 * mc.len() + p1.len() + t] == #[trigger] " {\n\t"@[t]
        }),
{
    reveal(builder_opening);
    reveal_strlit("\n\n");
    reveal_strlit("func build");
    reveal_strlit("Container");
    reveal_strlit(" {\n\t");
}

/// Where each piece of a new builder's head after its opening lies, and
/// what it holds.
proof fn lemma_head_layout(mi: Seq<char>, mc: Seq<char>, e: Seq<char>)
    ensures
        ({
            let h = builder_head(mi, mc, e);
            let o = builder_opening(mc).len();
            &&& h.len() == o + 61 + mc.len() + 2 * mi.len() + 2 * e.len()
            &&& forall|t: int| 0 <= t < o ==> h[t] == #[trigger] builder_opening(mc)[t]
            &&& forall|t: int| 0 <= t < 11 ==> h[o + t] == #[trigger] "wire.Build("@[t]
            &&& forall|t: int| 0 <= t < 18 ==> h[o + 11 + t] == #[trigger] "\n\t\tentrypoints.New"@[t]
            &&& forall|t: int| 0 <= t < mc.len() ==> h[o + 29 + t] == #[trigger] mc[t]
            &&& forall|t: int| 0 <= t < 9 ==> h[o + 29 + mc.len() + t] == #[trigger] "Container"@[t]
            &&& forall|t: int| 0 <= t < 4 ==> h[o + 38 + mc.len() + t] == #[trigger] ",\n\t\t"@[t]
            &&& forall|t: int| 0 <= t < mi.len() ==> h[o + 42 + mc.len() + t] == #[trigger] mi[t]
            &&& forall|t: int| 0 <= t < 5 ==> h[o + 42 + mc.len() + mi.len() + t] == #[trigger] "h.New"@[t]
            &&& forall|t: int| 0 <= t < e.len() ==> h[o + 47 + mc.len() + mi.len() + t] == #[trigger] e[t]
            &&& forall|t: int| 0 <= t < 4 ==> h[o + 47 + mc.len() + mi.len() + e.len() + t] == #[trigger] ",\n\t\t"@[t]
            &&& forall|t: int| 0 <= t < mi.len() ==> h[o + 51 + mc.len() + mi.len() + e.len() + t] == #[trigger] mi[t]
            &&& forall|t: int| 0 <= t < 6 ==> h[o + 51 + mc.len() + 2 * mi.len() + e.len() + t] == #[trigger] "uc.New"@[t]
            &&& forall|t: int| 0 <= t < e.len() ==> h[o + 57 + mc.len() + 2 * mi.len() + e.len() + t] == #[trigger] e[t]
            &&& forall|t: int| 0 <= t < 4 ==> h[o + 57 + mc.len() + 2 * mi.len() + 2 * e.len() + t] == #[trigger] ",\n\t\t"@[t]
        }),
{
    reveal(builder_head);
    reveal_strlit("wire.Build(");
    reveal_strlit("\n\t\tentrypoints.New");
    reveal_strlit("Container");
    reveal_strlit(",\n\t\t");
    reveal_strlit("h.New");
    reveal_strlit("uc.New");
}

/// The builder's name holds no line break.
proof fn lemma_builder_name_single_line(mc: Seq<char>)
    requires
        is_word(mc),
    ensures
        forall|t: int|
            0 <= t < ("func build"@ + mc + "Container"@).len() ==> #[trigger] ("func build"@ + mc
                + "Container"@)[t] != '\n',
        ("func build"@ + mc + "Container"@)[0] == 'f',
{
    reveal_strlit("func build");
    reveal_strlit("Container");
    let f = "func build"@ + mc + "Container"@;
    assert forall|t: int| 0 <= t < f.len() implies #[trigger] f[t] != '\n' by {
        if 10 <= t < 10 + mc.len() {
            assert(f[t] == mc[t - 10]);
        }
    };
}

proof fn lemma_appended_name_found_first(c: Seq<char>, mi: Seq<char>, mc: Seq<char>, e1: Seq<char>)
    requires
        is_word(mi),
        is_word(mc),
        is_word(e1),
        !contains_seq(c, "func build"@ + mc + "Container"@),
    ensures
        find_first(c + builder_function(mi, mc, e1), "func build"@ + mc + "Container"@) == Some(c.len() + 2int),
{
    let b = builder_function(mi, mc, e1);
    let n = c + b;
    let l = c.len() as int;
    let op = builder_opening(mc);
    let o = op.len() as int;
    let hd = builder_head(mi, mc, e1);
    let h = hd.len() as int;
    let f = "func build"@ + mc + "Container"@;
    let w = "wire.Build("@;
    let r = "repositorySet,"@;
    let p1 = "(conf *config.Config, logger *zap.Logger, db *gorm.DB) entrypoints."@;
    lemma_opening_layout(mc);
    lemma_head_layout(mi, mc, e1);
    lemma_builder_name_single_line(mc);
    reveal_strlit("wire.Build(");
    reveal_strlit("repositorySet,");
    reveal_strlit("repositorySet");
    reveal_strlit("func build");
    reveal_strlit("Container");
    reveal_strlit("(conf *config.Config, logger *zap.Logger, db *gorm.DB) entrypoints.");
    reveal_strlit(" {\n\t");
    reveal_strlit("\n\t\tentrypoints.New");
    reveal_strlit(",\n\t\t");
    reveal_strlit("h.New");
    reveal_strlit("uc.New");
    assert forall|x: int| 0 <= x < h implies #[trigger] n[l + x] == hd[x] by {
        assert(b[x] == hd[x]);
    };
    assert forall|t: int| 0 <= t < 14 implies #[trigger] n[l + h + t] == r[t] by {
        assert(b[h + t] == r[t]);
    };
    // The builder's name is first found where the appended function starts.
    assert(n.subrange(l + 2, l + 2 + f.len()) =~= f) by {
        assert forall|t: int| 0 <= t < f.len() implies n[l + 2 + t] == f[t] by {
            assert(n[l + 2 + t] == hd[2 + t]);
            assert(hd[2 + t] == op[2 + t]);
            if t < 10 {
            } else if t < 10 + mc.len() {
                assert(op[12 + (t - 10)] == mc[t - 10]);
            } else {
                assert(op[12 + mc.len() + (t - 10 - mc.len())] == "Container"@[t - 10 - mc.len()]);
            }
        };
    };
    lemma_find_from(c, f, 0);
    assert forall|j: int| 0 <= j < l + 2 implies !#[trigger] occurs_at(n, f, j) by {
        if occurs_at(n, f, j) {
            if j + f.len() <= l {
                assert(c.subrange(j, j + f.len()) =~= n.subrange(j, j + f.len()));
                assert(occurs_at(c, f, j));
            } else if j <= l {
                lemma_occ_char(n, f, j, l - j);
                assert(n[l] == hd[0]);
            } else {
                lemma_occ_char(n, f, j, 0);
                assert(n[l + 1] == hd[1]);
            }
        }
    };
    lemma_find_from_is(n, f, 0, l + 2);
}

/// The characters of the appended builder, read off the file.
proof fn lemma_appended_char(c: Seq<char>, mi: Seq<char>, mc: Seq<char>, e1: Seq<char>, x: int)
    requires
        0 <= x < builder_head(mi, mc, e1).len(),
    ensures
        (c + builder_function(mi, mc, e1))[c.len() + x] == builder_head(mi, mc, e1)[x],
{
    assert(builder_function(mi, mc, e1)[x] == builder_head(mi, mc, e1)[x]);
}

spec fn opening_char(mc: Seq<char>, x: int) -> char {
    let m = mc.len() as int;
    let p = "(conf *config.Config, logger *zap.Logger, db *gorm.DB) entrypoints."@;
    let pl = p.len() as int;
    if x < 2 {
        '\n'
    } else if x < 12 {
        "func build"@[x - 2]
    } else if x < 12 + m {
        mc[x - 12]
    } else if x < 21 + m {
        "Container"@[x - 12 - m]
    } else if x < 21 + m + pl {
        p[x - 21 - m]
    } else if x < 21 + 2 * m + pl {
        mc[x - 21 - m - pl]
    } else if x < 30 + 2 * m + pl {
        "Container"@[x - 21 - 2 * m - pl]
    } else {
        " {\n\t"@[x - 30 - 2 * m - pl]
    }
}

proof fn lemma_opening_char(mc: Seq<char>, x: int)
    requires
        0 <= x < builder_opening(mc).len(),
    ensures
        builder_opening(mc)[x] == opening_char(mc, x),
        builder_opening(mc).len() == 34 + 2 * mc.len()
            + "(conf *config.Config, logger *zap.Logger, db *gorm.DB) entrypoints."@.len(),
{
    lemma_opening_layout(mc);
    reveal_strlit("\n\n");
    let m = mc.len() as int;
    let p = "(conf *config.Config, logger *zap.Logger, db *gorm.DB) entrypoints."@;
    let pl = p.len() as int;
    let op = builder_opening(mc);
    if x < 2 {
    } else if x < 12 {
        assert(op[2 + (x - 2)] == "func build"@[x - 2]);
    } else if x < 12 + m {
        assert(op[12 + (x - 12)] == mc[x - 12]);
    } else if x < 21 + m {
        assert(op[12 + m + (x - 12 - m)] == "Container"@[x - 12 - m]);
    } else if x < 21 + m + pl {
        assert(op[21 + m + (x - 21 - m)] == p[x - 21 - m]);
    } else if x < 21 + 2 * m + pl {
        assert(op[21 + m + pl + (x - 21 - m - pl)] == mc[x - 21 - m - pl]);
    } else if x < 30 + 2 * m + pl {
        assert(op[21 + 2 * m + pl + (x - 21 - 2 * m - pl)] == "Container"@[x - 21 - 2 * m - pl]);
    } else {
        assert(op[30 + 2 * m + pl + (x - 30 - 2 * m - pl)] == " {\n\t"@[x - 30 - 2 * m - pl]);
    }
}

spec fn body_char(mi: Seq<char>, mc: Seq<char>, e: Seq<char>, y: int) -> char {
    let m = mc.len() as int;
    let a = mi.len() as int;
    let ee = e.len() as int;
    if y < 11 {
        "wire.Build("@[y]
    } else if y < 29 {
        "\n\t\tentrypoints.New"@[y - 11]
    } else if y < 29 + m {
        mc[y - 29]
    } else if y < 38 + m {
        "Container"@[y - 29 - m]
    } else if y < 42 + m {
        ",\n\t\t"@[y - 38 - m]
    } else if y < 42 + m + a {
        mi[y - 42 - m]
    } else if y < 47 + m + a {
        "h.New"@[y - 42 - m - a]
    } else if y < 47 + m + a + ee {
        e[y - 47 - m - a]
    } else if y < 51 + m + a + ee {
        ",\n\t\t"@[y - 47 - m - a - ee]
    } else if y < 51 + m + 2 * a + ee {
        mi[y - 51 - m - a - ee]
    } else if y < 57 + m + 2 * a + ee {
        "uc.New"@[y - 51 - m - 2 * a - ee]
    } else if y < 57 + m + 2 * a + 2 * ee {
        e[y - 57 - m - 2 * a - ee]
    } else {
        ",\n\t\t"@[y - 57 - m - 2 * a - 2 * ee]
    }
}

proof fn lemma_body_char(mi: Seq<char>, mc: Seq<char>, e: Seq<char>, y: int)
    requires
        0 <= y,
        builder_opening(mc).len() + y < builder_head(mi, mc, e).len(),
    ensures
        builder_head(mi, mc, e)[builder_opening(mc).len() + y] == body_char(mi, mc, e, y),
{
    lemma_head_layout(mi, mc, e);
    let o = builder_opening(mc).len() as int;
    let hd = builder_head(mi, mc, e);
    let m = mc.len() as int;
    let a = mi.len() as int;
    let ee = e.len() as int;
    if y < 11 {
        assert(hd[o + y] == "wire.Build("@[y]);
    } else if y < 29 {
        assert(hd[o + 11 + (y - 11)] == "\n\t\tentrypoints.New"@[y - 11]);
    } else if y < 29 + m {
        assert(hd[o + 29 + (y - 29)] == mc[y - 29]);
    } else if y < 38 + m {
        assert(hd[o + 29 + m + (y - 29 - m)] == "Container"@[y - 29 - m]);
    } else if y < 42 + m {
        assert(hd[o + 38 + m + (y - 38 - m)] == ",\n\t\t"@[y - 38 - m]);
    } else if y < 42 + m + a {
        assert(hd[o + 42 + m + (y - 42 - m)] == mi[y - 42 - m]);
    } else if y < 47 + m + a {
        assert(hd[o + 42 + m + a + (y - 42 - m - a)] == "h.New"@[y - 42 - m - a]);
    } else if y < 47 + m + a + ee {
        assert(hd[o + 47 + m + a + (y - 47 - m - a)] == e[y - 47 - m - a]);
    } else if y < 51 + m + a + ee {
        assert(hd[o + 47 + m + a + ee + (y - 47 - m - a - ee)] == ",\n\t\t"@[y - 47 - m - a - ee]);
    } else if y < 51 + m + 2 * a + ee {
        assert(hd[o + 51 + m + a + ee + (y - 51 - m - a - ee)] == mi[y - 51 - m - a - ee]);
    } else if y < 57 + m + 2 * a + ee {
        assert(hd[o + 51 + m + 2 * a + ee + (y - 51 - m - 2 * a - ee)] == "uc.New"@[y - 51 - m - 2
            * a - ee]);
    } else if y < 57 + m + 2 * a + 2 * ee {
        assert(hd[o + 57 + m + 2 * a + ee + (y - 57 - m - 2 * a - ee)] == e[y - 57 - m - 2 * a
            - ee]);
    } else {
        assert(hd[o + 57 + m + 2 * a + 2 * ee + (y - 57 - m - 2 * a - 2 * ee)] == ",\n\t\t"@[y - 57
            - m - 2 * a - 2 * ee]);
    }
}

#[verifier::rlimit(60)]
proof fn lemma_no_build_at(c: Seq<char>, mi: Seq<char>, mc: Seq<char>, e1: Seq<char>, j: int)
    requires
        is_word(mc),
        c.len() + 2 <= j < c.len() + builder_opening(mc).len(),
    ensures
        !occurs_at(c + builder_function(mi, mc, e1), "wire.Build("@, j),
{
    let n = c + builder_function(mi, mc, e1);
    let l = c.len() as int;
    let o = builder_opening(mc).len() as int;
    let hd = builder_head(mi, mc, e1);
    let w = "wire.Build("@;
    let m = mc.len() as int;
    if occurs_at(n, w, j) {
        reveal_strlit("wire.Build(");
        lemma_occ_char(n, w, j, 10);
        lemma_occ_char(n, w, j, 4);
        lemma_head_layout(mi, mc, e1);
        let x = j + 10 - l;
        lemma_appended_char(c, mi, mc, e1, x);
        if x < o {
            lemma_appended_char(c, mi, mc, e1, x - 6);
            assert(hd[x - 6] == builder_opening(mc)[x - 6]);
            lemma_opening_char(mc, x - 6);
            assert(hd[x] == builder_opening(mc)[x]);
            lemma_opening_char(mc, x);
            reveal_strlit("func build");
            reveal_strlit("Container");
            reveal_strlit(" {\n\t");
            reveal_strlit("(conf *config.Config, logger *zap.Logger, db *gorm.DB) entrypoints.");
            let p = "(conf *config.Config, logger *zap.Logger, db *gorm.DB) entrypoints."@;
            let pl = p.len() as int;
            if x < 12 {
                assert(opening_char(mc, x) == "func build"@[x - 2]);
                assert(opening_char(mc, x) != '(');
            } else if x < 12 + m {
                assert(opening_char(mc, x) == mc[x - 12]);
                assert(is_word_char(mc[x - 12]));
                assert(opening_char(mc, x) != '(');
            } else if x < 21 + m {
                assert(opening_char(mc, x) == "Container"@[x - 12 - m]);
                assert(opening_char(mc, x) != '(');
            } else if x < 21 + m + pl {
                assert(opening_char(mc, x) == p[x - 21 - m]);
                if x > 21 + m {
                    assert(forall|t: int| 1 <= t < pl ==> p[t] != '(');
                    assert(opening_char(mc, x) != '(');
                } else {
                    assert(opening_char(mc, x - 6) == "Container"@[3]);
                    assert(opening_char(mc, x - 6) != '.');
                }
            } else if x < 21 + 2 * m + pl {
                assert(opening_char(mc, x) == mc[x - 21 - m - pl]);
                assert(is_word_char(mc[x - 21 - m - pl]));
                assert(opening_char(mc, x) != '(');
            } else if x < 30 + 2 * m + pl {
                assert(opening_char(mc, x) == "Container"@[x - 21 - 2 * m - pl]);
                assert(opening_char(mc, x) != '(');
            } else {
                assert(opening_char(mc, x) == " {\n\t"@[x - 30 - 2 * m - pl]);
                assert(opening_char(mc, x) != '(');
            }
        } else {
            lemma_body_char(mi, mc, e1, x - o);
        }
    }
}

proof fn lemma_appended_build_found_first(c: Seq<char>, mi: Seq<char>, mc: Seq<char>, e1: Seq<char>)
    requires
        is_word(mc),
    ensures
        find_from(c + builder_function(mi, mc, e1), "wire.Build("@, c.len() + 2int) == Some(
            (c.len() + builder_opening(mc).len()) as int,
        ),
{
    let n = c + builder_function(mi, mc, e1);
    let l = c.len() as int;
    let o = builder_opening(mc).len() as int;
    let w = "wire.Build("@;
    lemma_head_layout(mi, mc, e1);
    lemma_opening_layout(mc);
    reveal_strlit("wire.Build(");
    assert(n.subrange(l + o, l + o + 11) =~= w) by {
        assert forall|t: int| 0 <= t < 11 implies n[l + o + t] == w[t] by {
            lemma_appended_char(c, mi, mc, e1, o + t);
        };
    };
    assert forall|j: int| l + 2 <= j < l + o implies !#[trigger] occurs_at(n, w, j) by {
        lemma_no_build_at(c, mi, mc, e1, j);
    };
    lemma_find_from_is(n, w, l + 2, l + o);
}

/// No `repositorySet,` ends at the `,` that follows an endpoint name in the
/// appended head, where the name starts at `e0`.
proof fn lemma_no_repository_after_endpoint(
    c: Seq<char>,
    mi: Seq<char>,
    mc: Seq<char>,
    e1: Seq<char>,
    j: int,
    e0: int,
)
    requires
        !(e1.len() >= 13 && e1.subrange(e1.len() - 13, e1.len() as int) == "repositorySet"@),
        1 <= e0,
        e0 + e1.len() <= builder_head(mi, mc, e1).len(),
        forall|t: int| 0 <= t < e1.len() ==> builder_head(mi, mc, e1)[e0 + t] == #[trigger] e1[t],
        builder_head(mi, mc, e1)[e0 - 1] == 'w',
        j == c.len() + e0 + e1.len() - 13,
        0 <= j,
    ensures
        !occurs_at(c + builder_function(mi, mc, e1), "repositorySet,"@, j),
{
    let n = c + builder_function(mi, mc, e1);
    let l = c.len() as int;
    let r = "repositorySet,"@;
    let ee = e1.len() as int;
    if occurs_at(n, r, j) {
        reveal_strlit("repositorySet,");
        reveal_strlit("repositorySet");
        if ee >= 13 {
            assert forall|t: int| 0 <= t < 13 implies #[trigger] e1.subrange(ee - 13, ee)[t]
                == "repositorySet"@[t] by {
                lemma_occ_char(n, r, j, t);
                lemma_appended_char(c, mi, mc, e1, e0 + (ee - 13 + t));
            };
            assert(e1.subrange(ee - 13, ee) =~= "repositorySet"@);
        } else {
            let wp = e0 - 1;
            lemma_occ_char(n, r, j, l + wp - j);
            lemma_appended_char(c, mi, mc, e1, wp);
        }
    }
}

#[verifier::rlimit(60)]
proof fn lemma_no_repository_at(c: Seq<char>, mi: Seq<char>, mc: Seq<char>, e1: Seq<char>, j: int)
    requires
        is_word(mi),
        is_word(mc),
        is_word(e1),
        !(e1.len() >= 13 && e1.subrange(e1.len() - 13, e1.len() as int) == "repositorySet"@),
        c.len() + builder_opening(mc).len() <= j < c.len() + builder_head(mi, mc, e1).len(),
    ensures
        !occurs_at(c + builder_function(mi, mc, e1), "repositorySet,"@, j),
{
    let n = c + builder_function(mi, mc, e1);
    let l = c.len() as int;
    let o = builder_opening(mc).len() as int;
    let hd = builder_head(mi, mc, e1);
    let h = hd.len() as int;
    let r = "repositorySet,"@;
    let w = "wire.Build("@;
    let m = mc.len() as int;
    let a = mi.len() as int;
    let ee = e1.len() as int;
    if occurs_at(n, r, j) {
        reveal_strlit("repositorySet,");
        lemma_occ_char(n, r, j, 13);
        lemma_occ_char(n, r, j, 4);
        lemma_head_layout(mi, mc, e1);
        let x = j + 13 - l;
        if x >= h {
            assert(builder_function(mi, mc, e1)[h + (x - h)] == r[x - h]);
        } else {
            lemma_appended_char(c, mi, mc, e1, x);
            if x < o + 11 {
                reveal_strlit("wire.Build(");
                assert(hd[o + (x - o)] == w[x - o]);
            } else if x < o + 29 {
                reveal_strlit("\n\t\tentrypoints.New");
                assert(hd[o + 11 + (x - o - 11)] == "\n\t\tentrypoints.New"@[x - o - 11]);
            } else if x < o + 29 + m {
                assert(hd[o + 29 + (x - o - 29)] == mc[x - o - 29]);
            } else if x < o + 38 + m {
                reveal_strlit("Container");
                assert(hd[o + 29 + m + (x - o - 29 - m)] == "Container"@[x - o - 29 - m]);
            } else if x < o + 42 + m {
                reveal_strlit(",\n\t\t");
                assert(hd[o + 38 + m + (x - o - 38 - m)] == ",\n\t\t"@[x - o - 38 - m]);
                if x == o + 38 + m {
                    reveal_strlit("Container");
                    lemma_appended_char(c, mi, mc, e1, x - 9);
                    assert(hd[o + 29 + m + 0] == "Container"@[0]);
                }
            } else if x < o + 42 + m + a {
                assert(hd[o + 42 + m + (x - o - 42 - m)] == mi[x - o - 42 - m]);
            } else if x < o + 47 + m + a {
                reveal_strlit("h.New");
                assert(hd[o + 42 + m + a + (x - o - 42 - m - a)] == "h.New"@[x - o - 42 - m - a]);
            } else if x < o + 47 + m + a + ee {
                assert(hd[o + 47 + m + a + (x - o - 47 - m - a)] == e1[x - o - 47 - m - a]);
            } else if x < o + 51 + m + a + ee {
                reveal_strlit(",\n\t\t");
                assert(hd[o + 47 + m + a + ee + (x - o - 47 - m - a - ee)] == ",\n\t\t"@[x - o - 47
                    - m - a - ee]);
                if x == o + 47 + m + a + ee {
                    reveal_strlit("h.New");
                    assert(hd[o + 42 + m + a + 4] == "h.New"@[4]);
                    lemma_no_repository_after_endpoint(c, mi, mc, e1, j, o + 47 + m + a);
                }
            } else if x < o + 51 + m + 2 * a + ee {
                assert(hd[o + 51 + m + a + ee + (x - o - 51 - m - a - ee)] == mi[x - o - 51 - m - a
                    - ee]);
            } else if x < o + 57 + m + 2 * a + ee {
                reveal_strlit("uc.New");
                assert(hd[o + 51 + m + 2 * a + ee + (x - o - 51 - m - 2 * a - ee)] == "uc.New"@[x
                    - o - 51 - m - 2 * a - ee]);
            } else if x < o + 57 + m + 2 * a + 2 * ee {
                assert(hd[o + 57 + m + 2 * a + ee + (x - o - 57 - m - 2 * a - ee)] == e1[x - o - 57
                    - m - 2 * a - ee]);
            } else {
                reveal_strlit(",\n\t\t");
                assert(hd[o + 57 + m + 2 * a + 2 * ee + (x - o - 57 - m - 2 * a - 2 * ee)]
                    == ",\n\t\t"@[x - o - 57 - m - 2 * a - 2 * ee]);
                if x == o + 57 + m + 2 * a + 2 * ee {
                    reveal_strlit("uc.New");
                    assert(hd[o + 51 + m + 2 * a + ee + 5] == "uc.New"@[5]);
                    lemma_no_repository_after_endpoint(c, mi, mc, e1, j, o + 57 + m + 2 * a + ee);
                }
            }
        }
    }
}

proof fn lemma_appended_repository_found_first(c: Seq<char>, mi: Seq<char>, mc: Seq<char>, e1: Seq<char>)
    requires
        is_word(mi),
        is_word(mc),
        is_word(e1),
        !(e1.len() >= 13 && e1.subrange(e1.len() - 13, e1.len() as int) == "repositorySet"@),
    ensures
        find_from(c + builder_function(mi, mc, e1), "repositorySet,"@, (c.len() + builder_opening(mc).len()) as int)
            == Some((c.len() + builder_head(mi, mc, e1).len()) as int),
{
    let n = c + builder_function(mi, mc, e1);
    let l = c.len() as int;
    let o = builder_opening(mc).len() as int;
    let h = builder_head(mi, mc, e1).len() as int;
    let r = "repositorySet,"@;
    lemma_head_layout(mi, mc, e1);
    reveal_strlit("repositorySet,");
    assert forall|t: int| 0 <= t < 14 implies n[l + h + t] == r[t] by {
        assert(builder_function(mi, mc, e1)[h + t] == r[t]);
    };
    assert(n.subrange(l + h, l + h + 14) =~= r);
    assert forall|j: int| l + o <= j < l + h implies !#[trigger] occurs_at(n, r, j) by {
        lemma_no_repository_at(c, mi, mc, e1, j);
    };
    lemma_find_from_is(n, r, l + o, l + h);
}

proof fn lemma_appended_repository_present(c: Seq<char>, mi: Seq<char>, mc: Seq<char>, e1: Seq<char>)
    ensures
        find_from(c + builder_function(mi, mc, e1), "repositorySet,"@, (c.len() + builder_opening(mc).len()) as int)
            is Some,
{
    let n = c + builder_function(mi, mc, e1);
    let l = c.len() as int;
    let o = builder_opening(mc).len() as int;
    let h = builder_head(mi, mc, e1).len() as int;
    let r = "repositorySet,"@;
    lemma_head_layout(mi, mc, e1);
    reveal_strlit("repositorySet,");
    assert forall|t: int| 0 <= t < 14 implies n[l + h + t] == r[t] by {
        assert(builder_function(mi, mc, e1)[h + t] == r[t]);
    };
    assert(n.subrange(l + h, l + h + 14) =~= r);
    assert(occurs_at(n, r, l + h));
    lemma_find_from(n, r, l + o);
}

/// A second endpoint of a module extends the builder that the first one
/// appended: after a new builder function is appended to a file that had
/// none for the module, adding to the existing builder succeeds and puts the
/// new providers right before that builder's `repositorySet,`. The names are
/// ASCII words. Where the providers go needs also that the first endpoint's
/// name does not end with `repositorySet`: such a name puts a
/// `repositorySet,` among the first providers, and the new ones go there.
pub proof fn law_new_builder_is_extended(
    c: Seq<char>,
    mi: Seq<char>,
    mc: Seq<char>,
    e1: Seq<char>,
    e2: Seq<char>,
)
    requires
        !contains_seq(c, "func build"@ + mc + "Container"@),
        is_word(mi),
        is_word(mc),
        is_word(e1),
    ensures
        !existing_builder_unanchored(c + builder_function(mi, mc, e1), mc),
        !(e1.len() >= 13 && e1.subrange(e1.len() - 13, e1.len() as int) == "repositorySet"@)
            ==> with_existing_builder(c + builder_function(mi, mc, e1), mi, e2, mc) == insert_at(
            c + builder_function(mi, mc, e1),
            (c.len() + builder_head(mi, mc, e1).len()) as int,
            builder_providers(mi, e2),
        ),
{
    lemma_appended_name_found_first(c, mi, mc, e1);
    lemma_appended_build_found_first(c, mi, mc, e1);
    lemma_appended_repository_present(c, mi, mc, e1);
    if !(e1.len() >= 13 && e1.subrange(e1.len() - 13, e1.len() as int) == "repositorySet"@) {
        lemma_appended_repository_found_first(c, mi, mc, e1);
    }
}

/// No line break and no opening parenthesis.
pub open spec fn is_plain_char(c: char) -> bool {
    c != '\n' && c != '('
}

/// The first `)` of `c`, if any, comes after a line break.
pub open spec fn paren_after_line_break(c: Seq<char>) -> bool {
    match find_first(c, ")"@) {
        Some(q) => rfind_char_before(c, '\n', q) is Some,
        None => true,
    }
}

/// `s` holds no line break and no opening parenthesis.
pub open spec fn is_plain(s: Seq<char>) -> bool {
    forall|k: int| 0 <= k < s.len() ==> is_plain_char(#[trigger] s[k])
}

proof fn lemma_occurs_contains(s: Seq<char>, pat: Seq<char>, j: int)
    requires
        occurs_at(s, pat, j),
    ensures
        contains_seq(s, pat),
{
    lemma_find_from(s, pat, 0);
}

proof fn lemma_contains_occurs(s: Seq<char>, pat: Seq<char>) -> (p: int)
    requires
        contains_seq(s, pat),
    ensures
        occurs_at(s, pat, p),
{
    lemma_find_from(s, pat, 0);
    find_first(s, pat)->0
}

/// An occurrence survives an insertion that does not fall strictly inside it.
proof fn lemma_insert_keeps_occurrence(s: Seq<char>, k: int, ins: Seq<char>, pat: Seq<char>, p: int)
    requires
        occurs_at(s, pat, p),
        0 <= k <= s.len(),
        !(p < k < p + pat.len()),
    ensures
        contains_seq(insert_at(s, k, ins), pat),
{
    let r = insert_at(s, k, ins);
    if k <= p {
        assert(r.subrange(p + ins.len(), p + ins.len() + pat.len()) =~= s.subrange(p, p + pat.len()));
        lemma_occurs_contains(r, pat, p + ins.len());
    } else {
        assert(r.subrange(p, p + pat.len()) =~= s.subrange(p, p + pat.len()));
        lemma_occurs_contains(r, pat, p);
    }
}

/// An occurrence in an edited text that lies outside the inserted part was
/// already there.
proof fn lemma_occurrence_outside_insert(s: Seq<char>, k: int, ins: Seq<char>, pat: Seq<char>, j: int)
    requires
        occurs_at(insert_at(s, k, ins), pat, j),
        0 <= k <= s.len(),
        j + pat.len() <= k || j >= k + ins.len(),
    ensures
        contains_seq(s, pat),
{
    let r = insert_at(s, k, ins);
    if j + pat.len() <= k {
        assert(s.subrange(j, j + pat.len()) =~= r.subrange(j, j + pat.len()));
        lemma_occurs_contains(s, pat, j);
    } else {
        let i = j - ins.len();
        assert(s.subrange(i, i + pat.len()) =~= r.subrange(j, j + pat.len()));
        lemma_occurs_contains(s, pat, i);
    }
}

/// Adding one import keeps an import line that was there: the new line goes
/// at a line break, before the file's first `)`, or at the start, which can
/// split the kept line only at a `)` that no line break precedes.
proof fn lemma_ensure_import_keeps(c: Seq<char>, imp: Seq<char>, x: Seq<char>, p: int, nl: int)
    requires
        occurs_at(c, x, p),
        is_plain(x),
        (forall|k: int| 0 <= k < x.len() ==> #[trigger] x[k] != ')') || paren_after_line_break(c)
            || (0 <= nl < p && c[nl] == '\n'),
    ensures
        contains_seq(ensure_import(c, imp), x),
{
    lemma_occurs_contains(c, x, p);
    if !contains_seq(c, imp) {
        let k = wire_import_position(c);
        lemma_find_from(c, ")"@, 0);
        reveal_strlit(")");
        if let Some(close) = find_first(c, ")"@) {
            lemma_rfind_char_before(c, '\n', close);
            assert(c.subrange(close, close + 1)[0] == c[close]);
        }
        if p < k < p + x.len() {
            assert(c.subrange(p, p + x.len())[k - p] == c[k]);
            assert(is_plain_char(x[k - p]));
        }
        lemma_insert_keeps_occurrence(c, k, "\n\t"@ + imp, x, p);
    }
}

/// Listing the builder keeps every import line that was there.
proof fn lemma_builder_reference_keeps(c: Seq<char>, mc: Seq<char>, x: Seq<char>)
    requires
        contains_seq(c, x),
        is_plain(x),
        x.len() > 0,
        x.last() == '"',
    ensures
        contains_seq(with_builder_reference(c, mc), x),
{
    let anchor = wire_build_anchor();
    lemma_find_from(c, anchor, 0);
    if let Some(a) = find_first(c, anchor) {
        let p = lemma_contains_occurs(c, x);
        reveal_strlit("wire.Struct(new(WebHandlerContainer), \"*\"),");
        if p < a < p + x.len() {
            let d = p + x.len() - a;
            if d >= 12 {
                assert(c.subrange(a, a + anchor.len())[11] == c[a + 11]);
                assert(c.subrange(p, p + x.len())[a - p + 11] == c[a + 11]);
                assert(is_plain_char(x[a - p + 11]));
            } else {
                assert(c.subrange(a, a + anchor.len())[d - 1] == c[a + d - 1]);
                assert(c.subrange(p, p + x.len())[x.len() - 1] == c[p + x.len() - 1]);
            }
        }
        lemma_insert_keeps_occurrence(c, a, "\n\t\tbuild"@ + mc + "Container,\n\t\t"@, x, p);
    }
}

/// A builder's definition names the builder.
proof fn lemma_definition_names_builder(s: Seq<char>, mc: Seq<char>, j: int)
    requires
        occurs_at(s, "func build"@ + mc + "Container"@, j),
    ensures
        contains_seq(s, "build"@ + mc + "Container"@),
        occurs_at(s, "build"@ + mc + "Container"@, j + 5),
{
    let f = "func build"@ + mc + "Container"@;
    let g = "build"@ + mc + "Container"@;
    reveal_strlit("func build");
    reveal_strlit("build");
    assert(s.subrange(j + 5, j + 5 + g.len()) =~= g) by {
        assert forall|t: int| 0 <= t < g.len() implies s[j + 5 + t] == g[t] by {
            assert(s.subrange(j, j + f.len())[5 + t] == s[j + 5 + t]);
            if t < 5 {
            } else if t < 5 + mc.len() {
                assert(f[5 + t] == mc[t - 5]);
            } else {
                assert(f[5 + t] == "Container"@[t - 5 - mc.len()]);
            }
        };
    };
    lemma_occurs_contains(s, g, j + 5);
}

/// Listing the builder does not make the file define it.
proof fn lemma_builder_reference_defines_nothing(c: Seq<char>, mc: Seq<char>)
    requires
        !contains_seq(c, "build"@ + mc + "Container"@),
        is_word(mc),
    ensures
        !contains_seq(with_builder_reference(c, mc), "func build"@ + mc + "Container"@),
{
    let f = "func build"@ + mc + "Container"@;
    let g = "build"@ + mc + "Container"@;
    reveal_strlit("func build");
    reveal_strlit("build");
    reveal_strlit("Container");
    reveal_strlit("\n\t\tbuild");
    reveal_strlit("Container,\n\t\t");
    let anchor = wire_build_anchor();
    lemma_find_from(c, anchor, 0);
    let r = with_builder_reference(c, mc);
    if contains_seq(r, f) {
        let j = lemma_contains_occurs(r, f);
        if find_first(c, anchor) is None {
            lemma_definition_names_builder(r, mc, j);
        }
        if let Some(a) = find_first(c, anchor) {
            let ins = "\n\t\tbuild"@ + mc + "Container,\n\t\t"@;
            let gl = g.len() as int;
            if j + f.len() <= a || j >= a + ins.len() {
                lemma_occurrence_outside_insert(c, a, ins, f, j);
                let i = lemma_contains_occurs(c, f);
                lemma_definition_names_builder(c, mc, i);
            } else {
                assert forall|t: int| 0 <= t < f.len() implies #[trigger] f[t] != '\n' && f[t] != '\t'
                    && f[t] != ',' by {
                    if 10 <= t < 10 + mc.len() {
                        assert(f[t] == mc[t - 10]);
                    }
                };
                let k = if j < a { a } else { j };
                if k <= a + 2 {
                    assert(r.subrange(j, j + f.len())[k - j] == r[k]);
                    assert(r[k] == ins[k - a]);
                } else if j <= a + 3 + gl {
                    let q = a + 3 + gl;
                    assert(r.subrange(j, j + f.len())[q - j] == r[q]);
                    assert(r[q] == ins[3 + gl]);
                    assert(ins[3 + gl] == "Container,\n\t\t"@[9]);
                } else {
                    assert(r.subrange(j, j + f.len())[0] == r[j]);
                    assert(r[j] == ins[j - a]);
                    assert(ins[j - a] == "Container,\n\t\t"@[j - a - 3 - gl + 9]);
                }
            }
        }
    }
}

proof fn lemma_snake_prefix_word(s: Seq<char>, n: int)
    requires
        is_word(s),
        0 <= n <= s.len(),
    ensures
        is_word(snake_prefix(s, n)),
        forall|k: int| 0 <= k < snake_prefix(s, n).len() ==> !('A' <= #[trigger] snake_prefix(s, n)[k] <= 'Z'),
    decreases n,
{
    if n > 0 {
        lemma_snake_prefix_word(s, n - 1);
        let p = snake_prefix(s, n - 1);
        let q = snake_piece(s[n - 1], n - 1);
        assert(is_word_char(s[n - 1]));
        assert(is_word_char(ascii_lower(s[n - 1])));
        assert forall|k: int| 0 <= k < (p + q).len() implies is_word_char(#[trigger] (p + q)[k])
            && !('A' <= (p + q)[k] <= 'Z') by {
            if k < p.len() {
                assert((p + q)[k] == p[k]);
            }
        };
    }
}

/// The package and container names of a module named by an ASCII word are
/// ASCII words.
pub(crate) proof fn lemma_names_are_words(module: Seq<char>)
    requires
        is_word(module),
    ensures
        is_word(snake_case(module)),
        forall|k: int| 0 <= k < snake_case(module).len() ==> !('A' <= #[trigger] snake_case(module)[k] <= 'Z'),
        is_word(capitalized(module)),
{
    lemma_snake_prefix_word(module, module.len() as int);
    if module.len() > 0 {
        assert(is_word_char(module[0]));
        assert(upper_text(module[0]) == seq![ascii_upper(module[0])]);
        let cap = capitalized(module);
        assert forall|k: int| 0 <= k < cap.len() implies is_word_char(#[trigger] cap[k]) by {
            if k > 0 {
                assert(cap[k] == module[k]);
            }
        };
    }
}

/// An import line built from a word package name and text without line
/// breaks or parentheses has none either, and ends with `"`.
proof fn lemma_import_plain(mi: Seq<char>, l1: Seq<char>, project: Seq<char>, l2: Seq<char>)
    requires
        is_word(mi),
        is_plain(l1),
        is_plain(project),
        is_plain(l2),
    ensures
        is_plain(mi + l1 + project + l2 + mi + "\""@),
        (forall|k: int| 0 <= k < l1.len() ==> #[trigger] l1[k] != ')') && (forall|k: int|
            0 <= k < project.len() ==> #[trigger] project[k] != ')') && (forall|k: int|
            0 <= k < l2.len() ==> #[trigger] l2[k] != ')') ==> forall|k: int|
            0 <= k < (mi + l1 + project + l2 + mi + "\""@).len() ==> #[trigger] (mi + l1 + project
                + l2 + mi + "\""@)[k] != ')',
        (mi + l1 + project + l2 + mi + "\""@).len() > 0,
        (mi + l1 + project + l2 + mi + "\""@).last() == '"',
{
    reveal_strlit("\"");
    let x = mi + l1 + project + l2 + mi + "\""@;
    assert forall|k: int| 0 <= k < x.len() implies is_plain_char(#[trigger] x[k]) && ((forall|i: int|
        0 <= i < l1.len() ==> #[trigger] l1[i] != ')') && (forall|i: int|
        0 <= i < project.len() ==> #[trigger] project[i] != ')') && (forall|i: int|
        0 <= i < l2.len() ==> #[trigger] l2[i] != ')') ==> x[k] != ')') by {
        let a = mi + l1;
        let b = a + project;
        let d = b + l2;
        let e = d + mi;
        if k < mi.len() {
            assert(is_word_char(mi[k]));
        } else if k < a.len() {
            assert(a[k] == l1[k - mi.len()]);
        } else if k < b.len() {
            assert(b[k] == project[k - a.len()]);
        } else if k < d.len() {
            assert(d[k] == l2[k - b.len()]);
        } else if k < e.len() {
            assert(e[k] == mi[k - d.len()]);
            assert(is_word_char(mi[k - d.len()]));
        }
    };
}

/// Adding an import does not name a builder that the file and the project
/// name did not name: the builder's name holds an uppercase letter, which in
/// an import line can only come from the project name, and it cannot reach
/// past the project name's surrounding `"` and `/`.
proof fn lemma_ensure_import_names_nothing(
    c: Seq<char>,
    mi: Seq<char>,
    l1: Seq<char>,
    project: Seq<char>,
    l2: Seq<char>,
    g: Seq<char>,
    ci: int,
)
    requires
        !contains_seq(c, g),
        !contains_seq(project, g),
        is_word(g),
        0 <= ci < g.len(),
        'A' <= g[ci] <= 'Z',
        forall|k: int| 0 <= k < mi.len() ==> !('A' <= #[trigger] mi[k] <= 'Z'),
        forall|k: int| 0 <= k < l1.len() ==> !('A' <= #[trigger] l1[k] <= 'Z'),
        forall|k: int| 0 <= k < l2.len() ==> !('A' <= #[trigger] l2[k] <= 'Z'),
        l1.len() > 0 && !is_word_char(l1.last()),
        l2.len() > 0 && !is_word_char(l2[0]),
    ensures
        !contains_seq(ensure_import(c, mi + l1 + project + l2 + mi + "\""@), g),
{
    let imp = mi + l1 + project + l2 + mi + "\""@;
    if !contains_seq(c, imp) {
        reveal_strlit("\n\t");
        reveal_strlit("\"");
        lemma_find_from(c, ")"@, 0);
        if let Some(close) = find_first(c, ")"@) {
            lemma_rfind_char_before(c, '\n', close);
        }
        let k = wire_import_position(c);
        let ins = "\n\t"@ + imp;
        let r = insert_at(c, k, ins);
        if contains_seq(r, g) {
            let j = lemma_contains_occurs(r, g);
            if j + g.len() <= k || j >= k + ins.len() {
                lemma_occurrence_outside_insert(c, k, ins, g, j);
            } else {
                let il = ins.len() as int;
                let ps = k + 2 + mi.len() + l1.len();
                let pe = ps + project.len();
                assert(r.subrange(j, j + g.len())[ci] == r[j + ci]);
                assert(is_word_char(g[ci]));
                if j + ci < k {
                    assert(r.subrange(j, j + g.len())[k - j] == r[k]);
                    assert(r[k] == ins[0]);
                    assert(is_word_char(g[k - j]));
                } else if j + ci >= k + il {
                    let e = k + il - 1;
                    assert(r.subrange(j, j + g.len())[e - j] == r[e]);
                    assert(r[e] == ins[il - 1]);
                    assert(is_word_char(g[e - j]));
                } else {
                    let y = j + ci - k;
                    assert(r[j + ci] == ins[y]);
                    let a = mi + l1;
                    let b = a + project;
                    let d = b + l2;
                    let e = d + mi;
                    if y < 2 {
                    } else if y - 2 < mi.len() {
                        assert(imp[y - 2] == mi[y - 2]);
                    } else if y - 2 < a.len() {
                        assert(imp[y - 2] == l1[y - 2 - mi.len()]);
                    } else if y - 2 < b.len() {
                        // The uppercase letter is in the project name.
                        if j < ps {
                            let q = ps - 1;
                            assert(r.subrange(j, j + g.len())[q - j] == r[q]);
                            assert(r[q] == ins[q - k]);
                            assert(imp[q - k - 2] == l1[l1.len() - 1]);
                            assert(is_word_char(g[q - j]));
                        } else if j + g.len() > pe {
                            assert(r.subrange(j, j + g.len())[pe - j] == r[pe]);
                            assert(r[pe] == ins[pe - k]);
                            assert(imp[pe - k - 2] == l2[0]);
                            assert(is_word_char(g[pe - j]));
                        } else {
                            assert forall|t: int| 0 <= t < g.len() implies project[j - ps + t] == g[t] by {
                                assert(r.subrange(j, j + g.len())[t] == r[j + t]);
                                assert(r[j + t] == ins[j + t - k]);
                                assert(imp[j + t - k - 2] == project[j + t - ps]);
                            };
                            assert(project.subrange(j - ps, j - ps + g.len()) =~= g);
                            lemma_occurs_contains(project, g, j - ps);
                        }
                    } else if y - 2 < d.len() {
                        assert(imp[y - 2] == l2[y - 2 - b.len()]);
                    } else if y - 2 < e.len() {
                        assert(imp[y - 2] == mi[y - 2 - d.len()]);
                    } else {
                        assert(imp[y - 2] == '"');
                    }
                }
            }
        }
    }
}

/// After an import is ensured, the file holds it.
proof fn lemma_ensure_import_adds(c: Seq<char>, imp: Seq<char>)
    ensures
        contains_seq(ensure_import(c, imp), imp),
{
    if !contains_seq(c, imp) {
        lemma_find_from(c, ")"@, 0);
        if let Some(close) = find_first(c, ")"@) {
            lemma_rfind_char_before(c, '\n', close);
        }
        crate::edit::lemma_inserted_is_contained(c, wire_import_position(c), "\n\t"@, imp, Seq::empty());
        assert("\n\t"@ + imp + Seq::<char>::empty() =~= "\n\t"@ + imp);
    }
}

proof fn lemma_append_keeps(a: Seq<char>, b: Seq<char>, x: Seq<char>)
    requires
        contains_seq(a, x),
    ensures
        contains_seq(a + b, x),
{
    let p = lemma_contains_occurs(a, x);
    assert((a + b).subrange(p, p + x.len()) =~= a.subrange(p, p + x.len()));
    lemma_occurs_contains(a + b, x, p);
}

/// Registering a second endpoint of a module extends the module's builder:
/// when the first registration of the module appended a new builder (the
/// file had none), the second registration succeeds, adds no import and no
/// builder, and only adds to that builder. The module and the first endpoint
/// are named by ASCII words (letters, digits, `_`), the project name holds
/// no line break or `(`, and neither the file nor the project name mentions
/// the module's builder. When the project name holds a `)` and the file
/// already holds the use case import, the file's first `)` must come after a
/// line break: otherwise the rest import is put at that `)`, inside the use
/// case import, which the second registration then adds again. The providers
/// go right before the builder's `repositorySet,` when the first endpoint's
/// name does not end with `repositorySet`.
pub proof fn law_wire_second_registration(
    c0: Seq<char>,
    module: Seq<char>,
    e1: Seq<char>,
    e2: Seq<char>,
    project: Seq<char>,
)
    requires
        is_word(module),
        is_word(e1),
        is_plain(project),
        !contains_seq(c0, "build"@ + capitalized(module) + "Container"@),
        !contains_seq(project, "build"@ + capitalized(module) + "Container"@),
        project.contains(')') && contains_seq(c0, usecase_import(snake_case(module), project))
            ==> paren_after_line_break(c0),
    ensures
        ({
            let mi = snake_case(module);
            let mc = capitalized(module);
            let c3 = with_builder_reference(wire_with_imports(c0, module, project), mc);
            let c1 = c3 + builder_function(mi, mc, e1);
            &&& wire_edit(c0, module, e1, project) == Ok::<_, EditError>(c1)
            &&& wire_edit(c1, module, e2, project) == Ok::<_, EditError>(
                with_existing_builder(c1, mi, e2, mc),
            )
            &&& !(e1.len() >= 13 && e1.subrange(e1.len() - 13, e1.len() as int) == "repositorySet"@)
                ==> with_existing_builder(c1, mi, e2, mc) == insert_at(
                c1,
                (c3.len() + builder_head(mi, mc, e1).len()) as int,
                builder_providers(mi, e2),
            )
        }),
{
    let mi = snake_case(module);
    let mc = capitalized(module);
    let ui = usecase_import(mi, project);
    let ri = rest_import(mi, project);
    let ca = ensure_import(c0, ui);
    let c2 = wire_with_imports(c0, module, project);
    let c3 = with_builder_reference(c2, mc);
    let c1 = c3 + builder_function(mi, mc, e1);
    lemma_names_are_words(module);
    reveal_strlit("uc \"");
    reveal_strlit("/src/core/usecases/");
    reveal_strlit("h \"");
    reveal_strlit("/src/entrypoints/rest/");
    lemma_import_plain(mi, "uc \""@, project, "/src/core/usecases/"@);
    lemma_import_plain(mi, "h \""@, project, "/src/entrypoints/rest/"@);
    let g = "build"@ + mc + "Container"@;
    reveal_strlit("build");
    reveal_strlit("Container");
    let ci = 5 + mc.len() as int;
    assert(g[ci] == 'C');
    assert(is_word(g)) by {
        assert forall|k: int| 0 <= k < g.len() implies is_word_char(#[trigger] g[k]) by {
            if 5 <= k < 5 + mc.len() {
                assert(g[k] == mc[k - 5]);
            }
        };
    };
    lemma_ensure_import_names_nothing(c0, mi, "uc \""@, project, "/src/core/usecases/"@, g, ci);
    lemma_ensure_import_names_nothing(ca, mi, "h \""@, project, "/src/entrypoints/rest/"@, g, ci);
    lemma_ensure_import_adds(c0, ui);
    lemma_ensure_import_adds(ca, ri);
    // The use case import is still there after the rest import is added.
    reveal_strlit(")");
    if contains_seq(c0, ui) {
        let p = lemma_contains_occurs(c0, ui);
        if !project.contains(')') {
            assert forall|k: int| 0 <= k < project.len() implies #[trigger] project[k] != ')' by {
                if project[k] == ')' {
                    assert(project.contains(')'));
                }
            };
        }
        lemma_ensure_import_keeps(ca, ri, ui, p, 0);
    } else {
        let k0 = wire_import_position(c0);
        lemma_find_from(c0, ")"@, 0);
        if let Some(close) = find_first(c0, ")"@) {
            lemma_rfind_char_before(c0, '\n', close);
        }
        reveal_strlit("\n\t");
        assert(ca.subrange(k0 + 2, k0 + 2 + ui.len()) =~= ui);
        assert(ca[k0] == '\n');
        lemma_ensure_import_keeps(ca, ri, ui, k0 + 2, k0);
    }
    lemma_builder_reference_keeps(c2, mc, ui);
    lemma_builder_reference_keeps(c2, mc, ri);
    lemma_append_keeps(c3, builder_function(mi, mc, e1), ui);
    lemma_append_keeps(c3, builder_function(mi, mc, e1), ri);
    assert(wire_with_imports(c1, module, project) == c1);
    lemma_builder_reference_defines_nothing(c2, mc);
    law_new_builder_is_extended(c3, mi, mc, e1, e2);
    lemma_appended_name_found_first(c3, mi, mc, e1);
    lemma_find_from(c1, "func build"@ + mc + "Container"@, 0);
    lemma_definition_names_builder(c1, mc, c3.len() + 2int);
}

} // verus!
