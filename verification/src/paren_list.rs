//! The first parenthesised list after a given text that closes on its own
//! line, as in `func NewUserContainer(a A, b B)`.
use vstd::prelude::*;
use crate::pattern::is_paren_list;
use crate::search::occurs_at;

verus! {

/// The index of the first `)` at or after `k`, unless a line break or the
/// end of `h` comes first.
pub open spec fn close_on_line(h: Seq<char>, k: int) -> Option<int>
    decreases h.len() - k,
{
    if k < 0 || k >= h.len() {
        None
    } else if h[k] == ')' {
        Some(k)
    } else if h[k] == '\n' {
        None
    } else {
        close_on_line(h, k + 1)
    }
}

/// The text `lit(...)` at index `i`, when the list closes on its own line.
pub open spec fn paren_list_at(h: Seq<char>, lit: Seq<char>, i: int) -> Option<Seq<char>> {
    if occurs_at(h, lit + "("@, i) {
        match close_on_line(h, i + lit.len() + 1) {
            Some(q) => Some(h.subrange(i, q + 1)),
            None => None,
        }
    } else {
        None
    }
}

/// The first text `lit(...)` at or after index `i` whose list closes on its
/// own line.
pub open spec fn first_paren_list(h: Seq<char>, lit: Seq<char>, i: int) -> Option<Seq<char>>
    decreases h.len() + 1 - i,
{
    if i < 0 || i > h.len() {
        None
    } else {
        match paren_list_at(h, lit, i) {
            Some(x) => Some(x),
            None => first_paren_list(h, lit, i + 1),
        }
    }
}

proof fn lemma_close_on_line_found(h: Seq<char>, k: int)
    requires
        0 <= k,
    ensures
        close_on_line(h, k) matches Some(q) ==> k <= q < h.len() && h[q] == ')' && forall|t: int|
            k <= t < q ==> #[trigger] h[t] != ')' && h[t] != '\n',
    decreases h.len() - k,
{
    if k < h.len() && h[k] != ')' && h[k] != '\n' {
        lemma_close_on_line_found(h, k + 1);
    }
}

proof fn lemma_close_on_line_is(h: Seq<char>, k: int, q: int)
    requires
        0 <= k <= q < h.len(),
        h[q] == ')',
        forall|t: int| k <= t < q ==> #[trigger] h[t] != ')' && h[t] != '\n',
    ensures
        close_on_line(h, k) == Some(q),
    decreases q - k,
{
    if k < q {
        lemma_close_on_line_is(h, k + 1, q);
    }
}

/// `paren_list_at` finds exactly the texts of the shape `is_paren_list`.
pub proof fn lemma_paren_list_at(h: Seq<char>, lit: Seq<char>, i: int, x: Seq<char>)
    ensures
        paren_list_at(h, lit, i) == Some(x) <==> (is_paren_list(lit, x) && occurs_at(h, x, i)),
{
    let l = lit.len() as int;
    let o = lit + "("@;
    reveal_strlit("(");
    if paren_list_at(h, lit, i) == Some(x) {
        lemma_close_on_line_found(h, i + l + 1);
        let q = close_on_line(h, i + l + 1)->0;
        assert(h.subrange(i, i + l + 1) == o);
        assert(x =~= h.subrange(i, q + 1));
        assert(x.take(l) =~= lit) by {
            assert forall|t: int| 0 <= t < l implies x[t] == lit[t] by {
                assert(h.subrange(i, i + l + 1)[t] == o[t]);
            };
        };
        assert(x[l] == '(') by {
            assert(h.subrange(i, i + l + 1)[l] == o[l]);
        };
        assert forall|t: int| l < t < x.len() - 1 implies #[trigger] x[t] != ')' && x[t] != '\n' by {
            assert(x[t] == h[i + t]);
        };
    }
    if is_paren_list(lit, x) && occurs_at(h, x, i) {
        let q = i + x.len() - 1;
        assert(h.subrange(i, i + l + 1) =~= o) by {
            assert forall|t: int| 0 <= t < l + 1 implies h.subrange(i, i + l + 1)[t] == o[t] by {
                assert(h.subrange(i, i + x.len())[t] == h[i + t]);
                if t < l {
                    assert(x.take(l)[t] == x[t]);
                }
            };
        };
        assert forall|t: int| i + l + 1 <= t < q implies #[trigger] h[t] != ')' && h[t] != '\n' by {
            assert(h.subrange(i, i + x.len())[t - i] == h[t]);
            assert(x[t - i] == h[t]);
        };
        assert(h.subrange(i, i + x.len())[x.len() - 1] == h[q]);
        lemma_close_on_line_is(h, i + l + 1, q);
        assert(h.subrange(i, q + 1) =~= x);
    }
}

proof fn lemma_first_paren_list_is(h: Seq<char>, lit: Seq<char>, i: int, j: int)
    requires
        0 <= i <= j,
        paren_list_at(h, lit, j) is Some,
        forall|t: int| i <= t < j ==> #[trigger] paren_list_at(h, lit, t) is None,
    ensures
        first_paren_list(h, lit, i) == paren_list_at(h, lit, j),
    decreases j - i,
{
    assert(j <= h.len());
    if i < j {
        lemma_first_paren_list_is(h, lit, i + 1, j);
    }
}

proof fn lemma_first_paren_list_none(h: Seq<char>, lit: Seq<char>, i: int)
    requires
        0 <= i,
        forall|t: int| i <= t ==> #[trigger] paren_list_at(h, lit, t) is None,
    ensures
        first_paren_list(h, lit, i) is None,
    decreases h.len() + 1 - i,
{
    if i <= h.len() {
        lemma_first_paren_list_none(h, lit, i + 1);
    }
}

/// When `b`, which follows `a` in `h`, has the shape `lit(...)` and no text
/// of that shape starts before it, it is the first such list.
pub proof fn lemma_first_paren_list_found(h: Seq<char>, lit: Seq<char>, a: Seq<char>, b: Seq<char>, c: Seq<char>)
    requires
        a + b + c == h,
        is_paren_list(lit, b),
        forall|x: Seq<char>, i: int|
            is_paren_list(lit, x) && #[trigger] occurs_at(h, x, i) ==> a.len() <= i,
    ensures
        first_paren_list(h, lit, 0) == Some(b),
{
    let s = a.len() as int;
    assert(h.subrange(s, s + b.len()) =~= b);
    lemma_paren_list_at(h, lit, s, b);
    assert forall|t: int| 0 <= t < s implies #[trigger] paren_list_at(h, lit, t) is None by {
        if let Some(x) = paren_list_at(h, lit, t) {
            lemma_paren_list_at(h, lit, t, x);
        }
    };
    lemma_first_paren_list_is(h, lit, 0, s);
}

/// When no text of the shape `lit(...)` occurs in `h`, there is no first one.
pub proof fn lemma_first_paren_list_absent(h: Seq<char>, lit: Seq<char>)
    requires
        forall|x: Seq<char>, i: int|
            is_paren_list(lit, x) && #[trigger] occurs_at(h, x, i) ==> false,
    ensures
        first_paren_list(h, lit, 0) is None,
{
    assert forall|t: int| 0 <= t implies #[trigger] paren_list_at(h, lit, t) is None by {
        if let Some(x) = paren_list_at(h, lit, t) {
            lemma_paren_list_at(h, lit, t, x);
        }
    };
    lemma_first_paren_list_none(h, lit, 0);
}

} // verus!
