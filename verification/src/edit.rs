//! Insertion and replacement over character sequences, and the
//! subsequence order that relates a text to its edited versions.
use vstd::prelude::*;
use crate::search::{contains_seq, find_from, find_seq_from, lemma_find_from, occurs_at};

verus! {

/// Why an edit of a Go source file could not be made.
#[derive(Debug, Clone, Copy, PartialEq, Eq, Structural)]
pub enum EditError {
    /// An import had to be added but the file has no `)` to put it before.
    MissingImportBlock,
    /// The container struct has no `}` after its opening line.
    UnclosedStruct,
    /// The container constructor's `return` literal has no `}` after it.
    UnclosedReturn,
    /// The search pattern was rejected by the regular expression engine.
    RejectedPattern,
    /// The module's builder calls `wire.Build(` with no `repositorySet,` after it.
    MissingRepositorySet,
}

/// The view of an edit's outcome.
pub open spec fn result_view(r: Result<String, EditError>) -> Result<Seq<char>, EditError> {
    match r {
        Ok(s) => Ok(s@),
        Err(e) => Err(e),
    }
}

/// `ins` inserted into `s` before index `i` (`String::insert_str`).
pub open spec fn insert_at(s: Seq<char>, i: int, ins: Seq<char>) -> Seq<char> {
    s.take(i) + ins + s.skip(i)
}

/// Every non-overlapping occurrence of a non-empty `pat` in `s[pos..]`,
/// left to right, replaced by `to`.
pub open spec fn replace_from(s: Seq<char>, pat: Seq<char>, to: Seq<char>, pos: int) -> Seq<char>
    decreases s.len() - pos,
{
    if pos < 0 || pos > s.len() || pat.len() == 0 {
        Seq::empty()
    } else {
        match find_from(s, pat, pos) {
            Some(i) => if pos <= i && i + pat.len() <= s.len() {
                s.subrange(pos, i) + to + replace_from(s, pat, to, i + pat.len())
            } else {
                s.subrange(pos, s.len() as int)
            },
            None => s.subrange(pos, s.len() as int),
        }
    }
}

/// `to` placed before every character of `s` and at its end, which is
/// what replacing the empty pattern does.
pub open spec fn replace_empty(s: Seq<char>, to: Seq<char>) -> Seq<char>
    decreases s.len(),
{
    if s.len() == 0 {
        to
    } else {
        to + seq![s[0]] + replace_empty(s.drop_first(), to)
    }
}

/// `str::replace`: all non-overlapping occurrences of `pat`, from left to
/// right, replaced by `to`.
pub open spec fn replace_all(s: Seq<char>, pat: Seq<char>, to: Seq<char>) -> Seq<char> {
    if pat.len() == 0 {
        replace_empty(s, to)
    } else {
        replace_from(s, pat, to, 0)
    }
}

/// `idx` maps each position of `a` to a position of `b` holding the same
/// character, in increasing order.
pub open spec fn embeds(a: Seq<char>, b: Seq<char>, idx: Seq<int>) -> bool {
    &&& idx.len() == a.len()
    &&& forall|k: int| 0 <= k < idx.len() ==> 0 <= #[trigger] idx[k] < b.len() && b[idx[k]] == a[k]
    &&& forall|k: int, l: int| 0 <= k < l < idx.len() ==> #[trigger] idx[k] < #[trigger] idx[l]
}

/// `a` can be obtained from `b` by deleting characters: `b` keeps all of `a`,
/// in order.
pub open spec fn is_subseq(a: Seq<char>, b: Seq<char>) -> bool {
    exists|idx: Seq<int>| embeds(a, b, idx)
}

pub proof fn lemma_subseq_refl(a: Seq<char>)
    ensures
        is_subseq(a, a),
{
    let idx = Seq::new(a.len(), |k: int| k);
    assert(embeds(a, a, idx));
}

pub proof fn lemma_subseq_empty(b: Seq<char>)
    ensures
        is_subseq(Seq::empty(), b),
{
    let idx: Seq<int> = Seq::empty();
    assert(embeds(Seq::empty(), b, idx));
}

pub proof fn lemma_subseq_concat(a1: Seq<char>, b1: Seq<char>, a2: Seq<char>, b2: Seq<char>)
    requires
        is_subseq(a1, b1),
        is_subseq(a2, b2),
    ensures
        is_subseq(a1 + a2, b1 + b2),
{
    let i1 = choose|idx: Seq<int>| embeds(a1, b1, idx);
    let i2 = choose|idx: Seq<int>| embeds(a2, b2, idx);
    let shifted = Seq::new(i2.len(), |k: int| i2[k] + b1.len());
    let idx = i1 + shifted;
    let a = a1 + a2;
    let b = b1 + b2;
    assert forall|k: int| 0 <= k < idx.len() implies 0 <= #[trigger] idx[k] < b.len() && b[idx[k]]
        == a[k] by {
        if k < i1.len() {
            assert(idx[k] == i1[k]);
        } else {
            assert(idx[k] == i2[k - i1.len()] + b1.len());
        }
    }
    assert forall|k: int, l: int| 0 <= k < l < idx.len() implies #[trigger] idx[k]
        < #[trigger] idx[l] by {
        if l < i1.len() {
            assert(idx[k] == i1[k] && idx[l] == i1[l]);
        } else if k < i1.len() {
            assert(idx[k] == i1[k]);
            assert(idx[l] == i2[l - i1.len()] + b1.len());
        } else {
            assert(idx[k] == i2[k - i1.len()] + b1.len());
            assert(idx[l] == i2[l - i1.len()] + b1.len());
        }
    }
    assert(embeds(a, b, idx));
}

pub proof fn lemma_subseq_trans(a: Seq<char>, b: Seq<char>, c: Seq<char>)
    requires
        is_subseq(a, b),
        is_subseq(b, c),
    ensures
        is_subseq(a, c),
{
    let i1 = choose|idx: Seq<int>| embeds(a, b, idx);
    let i2 = choose|idx: Seq<int>| embeds(b, c, idx);
    let idx = Seq::new(i1.len(), |k: int| i2[i1[k]]);
    assert forall|k: int| 0 <= k < idx.len() implies 0 <= #[trigger] idx[k] < c.len() && c[idx[k]]
        == a[k] by {
        assert(0 <= i1[k] < b.len());
        assert(0 <= i2[i1[k]] < c.len());
    }
    assert forall|k: int, l: int| 0 <= k < l < idx.len() implies #[trigger] idx[k]
        < #[trigger] idx[l] by {
        assert(i1[k] < i1[l]);
        assert(0 <= i1[l] < b.len());
        assert(i2[i1[k]] < i2[i1[l]]);
    }
    assert(embeds(a, c, idx));
}

/// Inserting text keeps everything that was there.
pub proof fn lemma_insert_keeps(s: Seq<char>, i: int, ins: Seq<char>)
    requires
        0 <= i <= s.len(),
    ensures
        is_subseq(s, insert_at(s, i, ins)),
{
    lemma_subseq_refl(s.take(i));
    lemma_subseq_refl(s.skip(i));
    lemma_subseq_empty(ins);
    lemma_subseq_concat(s.take(i), s.take(i), Seq::empty(), ins);
    assert(s.take(i) + Seq::<char>::empty() =~= s.take(i));
    lemma_subseq_concat(s.take(i), s.take(i) + ins, s.skip(i), s.skip(i));
    assert(s.take(i) + s.skip(i) =~= s);
}

/// Inserted text can be found in the result.
pub proof fn lemma_inserted_is_contained(s: Seq<char>, i: int, pre: Seq<char>, x: Seq<char>, post: Seq<char>)
    requires
        0 <= i <= s.len(),
    ensures
        contains_seq(insert_at(s, i, pre + x + post), x),
{
    let r = insert_at(s, i, pre + x + post);
    let at = i + pre.len();
    assert(r.subrange(at, at + x.len()) =~= x);
    assert(occurs_at(r, x, at));
    lemma_find_from(r, x, 0);
}

/// Replacing an occurrence of `pat` by a text that keeps `pat` keeps `s`.
pub proof fn lemma_replace_from_keeps(s: Seq<char>, pat: Seq<char>, to: Seq<char>, pos: int)
    requires
        0 <= pos <= s.len(),
        pat.len() > 0,
        is_subseq(pat, to),
    ensures
        is_subseq(s.subrange(pos, s.len() as int), replace_from(s, pat, to, pos)),
    decreases s.len() - pos,
{
    lemma_find_from(s, pat, pos);
    match find_from(s, pat, pos) {
        Some(i) => {
            let j = i + pat.len();
            lemma_replace_from_keeps(s, pat, to, j);
            let head = s.subrange(pos, i);
            lemma_subseq_refl(head);
            lemma_subseq_concat(head, head, pat, to);
            lemma_subseq_concat(head + pat, head + to, s.subrange(j, s.len() as int),
                replace_from(s, pat, to, j));
            assert(head + pat + s.subrange(j, s.len() as int) =~= s.subrange(pos, s.len() as int));
        },
        None => {
            lemma_subseq_refl(s.subrange(pos, s.len() as int));
        },
    }
}

pub proof fn lemma_replace_empty_keeps(s: Seq<char>, to: Seq<char>)
    ensures
        is_subseq(s, replace_empty(s, to)),
    decreases s.len(),
{
    if s.len() == 0 {
        lemma_subseq_empty(to);
        assert(s =~= Seq::<char>::empty());
    } else {
        lemma_replace_empty_keeps(s.drop_first(), to);
        lemma_subseq_empty(to);
        lemma_subseq_refl(seq![s[0]]);
        lemma_subseq_concat(Seq::empty(), to, seq![s[0]], seq![s[0]]);
        assert(Seq::<char>::empty() + seq![s[0]] =~= seq![s[0]]);
        lemma_subseq_concat(seq![s[0]], to + seq![s[0]], s.drop_first(), replace_empty(
            s.drop_first(),
            to,
        ));
        assert(seq![s[0]] + s.drop_first() =~= s);
    }
}

/// Replacing `pat` by a text that keeps `pat` keeps all of `s`.
pub proof fn lemma_replace_all_keeps(s: Seq<char>, pat: Seq<char>, to: Seq<char>)
    requires
        is_subseq(pat, to),
    ensures
        is_subseq(s, replace_all(s, pat, to)),
{
    if pat.len() == 0 {
        lemma_replace_empty_keeps(s, to);
    } else {
        lemma_replace_from_keeps(s, pat, to, 0);
        assert(s.subrange(0, s.len() as int) =~= s);
    }
}

/// Appends `src[from..to]` to `dst`.
pub fn extend_range(dst: &mut Vec<char>, src: &Vec<char>, from: usize, to: usize)
    requires
        from <= to <= src.len(),
    ensures
        final(dst)@ == old(dst)@ + src@.subrange(from as int, to as int),
{
    let mut k = from;
    while k < to
        invariant
            from <= k <= to,
            to <= src.len(),
            dst@ == old(dst)@ + src@.subrange(from as int, k as int),
        decreases to - k,
    {
        dst.push(src[k]);
        k = k + 1;
        assert(src@.subrange(from as int, k as int) =~= src@.subrange(from as int, k - 1).push(
            src@[k - 1],
        ));
    }
}

/// Appends all of `src` to `dst`.
pub fn extend_all(dst: &mut Vec<char>, src: &Vec<char>)
    ensures
        final(dst)@ == old(dst)@ + src@,
{
    extend_range(dst, src, 0, src.len());
    assert(src@.subrange(0, src.len() as int) =~= src@);
}

/// `ins` inserted into `s` before index `i`.
pub fn insert_seq(s: &Vec<char>, i: usize, ins: &Vec<char>) -> (r: Vec<char>)
    requires
        i <= s.len(),
    ensures
        r@ == insert_at(s@, i as int, ins@),
{
    let mut r: Vec<char> = Vec::new();
    extend_range(&mut r, s, 0, i);
    extend_all(&mut r, ins);
    extend_range(&mut r, s, i, s.len());
    assert(r@ =~= insert_at(s@, i as int, ins@));
    r
}

/// Every non-overlapping occurrence of `pat` in `s` replaced by `to`.
pub fn replace_seq(s: &Vec<char>, pat: &Vec<char>, to: &Vec<char>) -> (r: Vec<char>)
    ensures
        r@ == replace_all(s@, pat@, to@),
{
    let mut r: Vec<char> = Vec::new();
    if pat.len() == 0 {
        let mut k: usize = 0;
        assert(s@.skip(0) =~= s@);
        assert(r@ + replace_empty(s@, to@) =~= replace_empty(s@, to@));
        while k < s.len()
            invariant
                k <= s.len(),
                pat@.len() == 0,
                r@ + replace_empty(s@.skip(k as int), to@) == replace_empty(s@, to@),
            decreases s.len() - k,
        {
            assert(s@.skip(k as int).drop_first() =~= s@.skip(k + 1));
            extend_all(&mut r, to);
            r.push(s[k]);
            k = k + 1;
        }
        extend_all(&mut r, to);
        assert(s@.skip(k as int).len() == 0);
        return r;
    }
    let mut pos: usize = 0;
    assert(s@.subrange(0, 0) =~= Seq::<char>::empty());
    loop
        invariant
            pos <= s.len(),
            pat@.len() > 0,
            r@ + replace_from(s@, pat@, to@, pos as int) == replace_from(s@, pat@, to@, 0),
        decreases s.len() - pos,
    {
        proof {
            lemma_find_from(s@, pat@, pos as int);
        }
        match find_seq_from(s, pat, pos) {
            Some(i) => {
                extend_range(&mut r, s, pos, i);
                extend_all(&mut r, to);
                pos = i + pat.len();
            },
            None => {
                extend_range(&mut r, s, pos, s.len());
                return r;
            },
        }
    }
}

} // verus!
