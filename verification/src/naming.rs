//! Go naming conventions: exported (capitalised) names and snake_case
//! package and file names.
use vstd::prelude::*;
use crate::text::{
    ascii_lower, ascii_upper, is_ascii_seq, char_is_uppercase, char_to_ascii_lowercase, char_to_uppercase,
    is_upper, push_char, to_chars, upper_text,
};

verus! {

/// `s` with its first character replaced by its uppercase mapping.
pub open spec fn capitalized(s: Seq<char>) -> Seq<char> {
    if s.len() == 0 {
        Seq::empty()
    } else {
        upper_text(s[0]) + s.drop_first()
    }
}

/// What the character at index `i` becomes in snake_case: lowered to ASCII
/// lowercase, preceded by `_` when it is an uppercase letter past the start.
pub open spec fn snake_piece(c: char, i: int) -> Seq<char> {
    if i > 0 && is_upper(c) {
        seq!['_', ascii_lower(c)]
    } else {
        seq![ascii_lower(c)]
    }
}

/// snake_case of the first `n` characters of `s`.
pub open spec fn snake_prefix(s: Seq<char>, n: int) -> Seq<char>
    decreases n,
{
    if n <= 0 {
        Seq::empty()
    } else {
        snake_prefix(s, n - 1) + snake_piece(s[n - 1], n - 1)
    }
}

/// camelCase or PascalCase `s` in snake_case.
pub open spec fn snake_case(s: Seq<char>) -> Seq<char> {
    snake_prefix(s, s.len() as int)
}

/// `snake_piece` for ASCII characters, where the uppercase letters are
/// `A`..`Z`.
pub open spec fn ascii_snake_piece(c: char, i: int) -> Seq<char> {
    if i > 0 && 'A' <= c <= 'Z' {
        seq!['_', ascii_lower(c)]
    } else {
        seq![ascii_lower(c)]
    }
}

/// `snake_prefix` for ASCII text.
pub open spec fn ascii_snake_prefix(s: Seq<char>, n: int) -> Seq<char>
    decreases n,
{
    if n <= 0 {
        Seq::empty()
    } else {
        ascii_snake_prefix(s, n - 1) + ascii_snake_piece(s[n - 1], n - 1)
    }
}

/// snake_case of ASCII text: `_` before every `A`..`Z` past the start, and
/// `A`..`Z` lowered.
pub open spec fn ascii_snake_case(s: Seq<char>) -> Seq<char> {
    ascii_snake_prefix(s, s.len() as int)
}

/// Makes the first letter of `s` uppercase (its full Unicode uppercase
/// mapping) and keeps the rest.
pub fn capitalize_first_letter(s: &str) -> (r: String)
    ensures
        r@ == capitalized(s@),
{
    let chars = to_chars(s);
    if chars.len() == 0 {
        return String::new();
    }
    let mut r = char_to_uppercase(chars[0]);
    assert(r@ =~= upper_text(chars@[0]));
    let mut k: usize = 1;
    while k < chars.len()
        invariant
            1 <= k <= chars.len(),
            chars@ == s@,
            r@ == upper_text(chars@[0]) + chars@.subrange(1, k as int),
        decreases chars.len() - k,
    {
        push_char(&mut r, chars[k]);
        k = k + 1;
        assert(chars@.subrange(1, k as int) =~= chars@.subrange(1, k - 1).push(chars@[k - 1]));
    }
    assert(chars@.subrange(1, chars.len() as int) =~= chars@.drop_first());
    r
}

/// Converts camelCase or PascalCase to snake_case: every uppercase letter
/// after the first character is preceded by `_`, and ASCII letters are
/// lowered.
pub fn camel_to_snake_case(input: &str) -> (r: String)
    ensures
        r@ == snake_case(input@),
        is_ascii_seq(input@) ==> r@ == ascii_snake_case(input@),
{
    let chars = to_chars(input);
    let mut r = String::new();
    let mut i: usize = 0;
    while i < chars.len()
        invariant
            i <= chars.len(),
            chars@ == input@,
            r@ == snake_prefix(chars@, i as int),
            is_ascii_seq(input@) ==> r@ == ascii_snake_prefix(chars@, i as int),
        decreases chars.len() - i,
    {
        let c = chars[i];
        let upper = char_is_uppercase(c);
        proof {
            if is_ascii_seq(input@) {
                assert((chars@[i as int] as u32) < 128);
            }
        }
        if upper && i > 0 {
            push_char(&mut r, '_');
        }
        push_char(&mut r, char_to_ascii_lowercase(c));
        i = i + 1;
        assert(r@ =~= snake_prefix(chars@, i as int));
        assert(is_ascii_seq(input@) ==> r@ =~= ascii_snake_prefix(chars@, i as int));
    }
    r
}

proof fn lemma_ascii_lower_idempotent(c: char)
    ensures
        ascii_lower(ascii_lower(c)) == ascii_lower(c),
{
}

proof fn lemma_snake_prefix_lowered(s: Seq<char>, n: int)
    requires
        0 <= n <= s.len(),
    ensures
        forall|k: int|
            0 <= k < snake_prefix(s, n).len() ==> ascii_lower(#[trigger] snake_prefix(s, n)[k])
                == snake_prefix(s, n)[k],
    decreases n,
{
    if n > 0 {
        lemma_snake_prefix_lowered(s, n - 1);
        lemma_ascii_lower_idempotent(s[n - 1]);
        let p = snake_prefix(s, n - 1);
        let q = snake_piece(s[n - 1], n - 1);
        assert forall|k: int| 0 <= k < (p + q).len() implies ascii_lower(#[trigger] (p + q)[k])
            == (p + q)[k] by {
            if k < p.len() {
                assert(ascii_lower(p[k]) == p[k]);
            }
        }
    }
}

proof fn lemma_snake_prefix_fixed(t: Seq<char>, n: int)
    requires
        0 <= n <= t.len(),
        forall|k: int| 0 <= k < t.len() ==> ascii_lower(#[trigger] t[k]) == t[k],
        forall|k: int| 1 <= k < t.len() ==> !is_upper(#[trigger] t[k]),
    ensures
        snake_prefix(t, n) == t.take(n),
    decreases n,
{
    if n > 0 {
        lemma_snake_prefix_fixed(t, n - 1);
        assert(t.take(n) =~= t.take(n - 1).push(t[n - 1]));
        assert(snake_piece(t[n - 1], n - 1) =~= seq![t[n - 1]]);
    } else {
        assert(t.take(0) =~= Seq::<char>::empty());
    }
}

/// Converting to snake_case a second time changes nothing, as long as the
/// first result has no uppercase letter past its first character (the case
/// for every ASCII input, since ASCII letters come out lowered).
pub proof fn law_snake_case_idempotent(s: Seq<char>)
    requires
        forall|k: int|
            1 <= k < snake_case(s).len() ==> !is_upper(#[trigger] snake_case(s)[k]),
    ensures
        snake_case(snake_case(s)) == snake_case(s),
{
    let t = snake_case(s);
    lemma_snake_prefix_lowered(s, s.len() as int);
    lemma_snake_prefix_fixed(t, t.len() as int);
    assert(t.take(t.len() as int) =~= t);
}

proof fn lemma_ascii_snake_prefix_shape(s: Seq<char>, n: int)
    requires
        0 <= n <= s.len(),
        is_ascii_seq(s),
    ensures
        is_ascii_seq(ascii_snake_prefix(s, n)),
        forall|k: int|
            0 <= k < ascii_snake_prefix(s, n).len() ==> !('A' <= #[trigger] ascii_snake_prefix(
                s,
                n,
            )[k] <= 'Z'),
    decreases n,
{
    if n > 0 {
        lemma_ascii_snake_prefix_shape(s, n - 1);
        let p = ascii_snake_prefix(s, n - 1);
        let q = ascii_snake_piece(s[n - 1], n - 1);
        assert((s[n - 1] as u32) < 128);
        assert forall|k: int| 0 <= k < (p + q).len() implies ((#[trigger] (p + q)[k]) as u32) < 128
            && !('A' <= (p + q)[k] <= 'Z') by {
            if k < p.len() {
                assert((p + q)[k] == p[k]);
            }
        }
    }
}

proof fn lemma_ascii_snake_prefix_fixed(t: Seq<char>, n: int)
    requires
        0 <= n <= t.len(),
        forall|k: int| 0 <= k < t.len() ==> !('A' <= #[trigger] t[k] <= 'Z'),
    ensures
        ascii_snake_prefix(t, n) == t.take(n),
    decreases n,
{
    if n > 0 {
        lemma_ascii_snake_prefix_fixed(t, n - 1);
        assert(t.take(n) =~= t.take(n - 1).push(t[n - 1]));
        assert(ascii_snake_piece(t[n - 1], n - 1) =~= seq![t[n - 1]]);
    } else {
        assert(t.take(0) =~= Seq::<char>::empty());
    }
}

/// For ASCII text, converting to snake_case a second time changes nothing.
pub proof fn law_ascii_snake_case_idempotent(s: Seq<char>)
    requires
        is_ascii_seq(s),
    ensures
        is_ascii_seq(ascii_snake_case(s)),
        ascii_snake_case(ascii_snake_case(s)) == ascii_snake_case(s),
{
    let t = ascii_snake_case(s);
    lemma_ascii_snake_prefix_shape(s, s.len() as int);
    lemma_ascii_snake_prefix_fixed(t, t.len() as int);
    assert(t.take(t.len() as int) =~= t);
}

proof fn lemma_snake_prefix_first(s: Seq<char>, n: int)
    requires
        1 <= n <= s.len(),
    ensures
        snake_prefix(s, n).len() >= 1,
        snake_prefix(s, n)[0] == ascii_lower(s[0]),
    decreases n,
{
    if n > 1 {
        lemma_snake_prefix_first(s, n - 1);
    } else {
        assert(snake_prefix(s, 0) =~= Seq::<char>::empty());
    }
}

/// snake_case never puts `_` in front: the result begins with the input's
/// first character, lowered when it is an ASCII letter.
pub proof fn law_snake_case_first_char(s: Seq<char>)
    requires
        s.len() > 0,
    ensures
        snake_case(s).len() >= 1,
        snake_case(s)[0] == ascii_lower(s[0]),
{
    lemma_snake_prefix_first(s, s.len() as int);
}

/// Capitalising a name that starts with an ASCII character changes only that
/// character: `a`..`z` becomes `A`..`Z` (32 code points lower), anything
/// else is kept, and the rest of the name stays as it is.
pub proof fn law_capitalized_ascii(s: Seq<char>)
    requires
        s.len() > 0,
        (s[0] as u32) < 128,
    ensures
        capitalized(s).len() == s.len(),
        forall|k: int| 1 <= k < s.len() ==> #[trigger] capitalized(s)[k] == s[k],
        'a' <= s[0] <= 'z' ==> capitalized(s)[0] as u32 == s[0] as u32 - 32,
        !('a' <= s[0] <= 'z') ==> capitalized(s)[0] == s[0],
{
    assert(upper_text(s[0]) == seq![ascii_upper(s[0])]);
}

} // verus!
