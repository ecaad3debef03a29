//! Regular expressions (the `regex` crate) behind a small trusted surface:
//! compiling a pattern, finding its first match, and testing for captures.
use vstd::prelude::*;
use regex::Regex;
use crate::search::occurs_at;
use crate::text::is_ascii_seq;

verus! {

#[verifier::external_type_specification]
#[verifier::external_body]
pub struct ExRegex(regex::Regex);

#[verifier::external_type_specification]
#[verifier::external_body]
pub struct ExRegexError(regex::Error);

/// Whether `Regex::new` accepts `pattern` (it rejects syntax errors and
/// patterns whose compiled form exceeds the default size limit).
pub uninterp spec fn regex_accepts(pattern: Seq<char>) -> bool;

/// The first match that `Regex::find` reports for `pattern` in `haystack`,
/// as the text before the match, the matched text and the text after it.
pub uninterp spec fn regex_first_match(pattern: Seq<char>, haystack: Seq<char>) -> Option<
    (Seq<char>, Seq<char>, Seq<char>),
>;

/// An ASCII letter, digit or `_`: the ASCII characters that `\w` matches
/// (`\p{Alphabetic}`, `\p{M}`, `\d`, `\p{Pc}`, `\p{Join_Control}`).
pub open spec fn is_ascii_word_char(c: char) -> bool {
    ||| 'a' <= c <= 'z'
    ||| 'A' <= c <= 'Z'
    ||| '0' <= c <= '9'
    ||| c == '_'
}

/// A non-empty run of ASCII word characters.
pub open spec fn is_ascii_word(s: Seq<char>) -> bool {
    s.len() > 0 && forall|k: int| 0 <= k < s.len() ==> is_ascii_word_char(#[trigger] s[k])
}

/// One of the HTTP methods that routes are registered with.
pub open spec fn is_http_method(s: Seq<char>) -> bool {
    ||| s == "GET"@
    ||| s == "POST"@
    ||| s == "PUT"@
    ||| s == "DELETE"@
    ||| s == "PATCH"@
}

/// `s` is made of ASCII letters, digits, `_` and spaces: text that a
/// pattern matches literally.
pub open spec fn is_literal_text(s: Seq<char>) -> bool {
    forall|k: int| 0 <= k < s.len() ==> is_ascii_word_char(#[trigger] s[k]) || s[k] == ' '
}

/// The pattern that finds `lit` followed by a parenthesised list on one
/// line, the list captured.
pub open spec fn paren_list_regex(lit: Seq<char>) -> Seq<char> {
    lit + "\\((.*?)\\)"@
}

/// `x` is `lit`, `(`, text without `)` or line break, and `)`.
pub open spec fn is_paren_list(lit: Seq<char>, x: Seq<char>) -> bool {
    &&& x.len() >= lit.len() + 2
    &&& x.take(lit.len() as int) == lit
    &&& x[lit.len() as int] == '('
    &&& x[x.len() - 1] == ')'
    &&& forall|k: int| lit.len() < k < x.len() - 1 ==> #[trigger] x[k] != ')' && x[k] != '\n'
}

/// The pattern of a registered route's handler call.
pub open spec fn route_call_regex() -> Seq<char> {
    "(?P<method>GET|POST|PUT|DELETE|PATCH)\\(fn\\.Handlers\\.\\w+\\.\\w+\\.Handle\\(\\)\\)\\)"@
}

/// `x` is a route's handler call `<METHOD>(fn.Handlers.<A>.<B>.Handle()))`
/// with `<A>` and `<B>` ASCII words.
pub open spec fn is_route_call(x: Seq<char>) -> bool {
    exists|meth: Seq<char>, a: Seq<char>, b: Seq<char>|
        is_http_method(meth) && is_ascii_word(a) && is_ascii_word(b) && x == meth
            + "(fn.Handlers."@ + a + "."@ + b + ".Handle()))"@
}

/// A compiled regular expression and the pattern it was compiled from.
pub struct Pattern {
    source: String,
    compiled: Regex,
}

impl View for Pattern {
    type V = Seq<char>;

    closed spec fn view(&self) -> Seq<char> {
        self.source@
    }
}

/// The view of a match split into before / matched / after.
pub open spec fn split_view(m: Option<(String, String, String)>) -> Option<
    (Seq<char>, Seq<char>, Seq<char>),
> {
    match m {
        Some((a, b, c)) => Some((a@, b@, c@)),
        None => None,
    }
}

/// `Regex::new`. Whether it succeeds is named by `regex_accepts`, a function
/// of the pattern alone; on success the result remembers the pattern.
#[verifier::external_body]
pub(crate) fn compile_pattern(pattern: &str) -> (r: Result<Pattern, regex::Error>)
    ensures
        r is Ok <==> regex_accepts(pattern@),
        r matches Ok(p) ==> p@ == pattern@,
{
    match Regex::new(pattern) {
        Ok(compiled) => Ok(Pattern { source: pattern.to_string(), compiled }),
        Err(e) => Err(e),
    }
}

/// `Regex::find`, with the match split at its byte offsets into the text
/// before, the matched text and the text after. The result is named by
/// `regex_first_match` of the pattern and the haystack; the three parts
/// together make up the haystack, as `Match::start`, `Match::end` and
/// `Match::as_str` document. Which match is first (leftmost-first
/// semantics) is left to the name, except for the route pattern, whose
/// syntax (literal text, an alternation, `\w+`) the crate documents: every
/// route call with ASCII names in the haystack is a match, so one is found
/// and none starts before the one found; a route call that starts where the
/// match starts is the match (the `.` after each `\w+` run ends it); and in
/// an ASCII haystack, where `\w` is `[0-9A-Za-z_]`, the match is such a
/// call. Likewise for literal text followed by `\((.*?)\)`: `.` is any
/// character but a line break and `*?` takes as few as it can, so the
/// match is the literal, `(`, text without `)` or line break, and `)`;
/// every such text in the haystack is a match, so one is found and none
/// starts before the one found.
#[verifier::external_body]
pub(crate) fn first_match(p: &Pattern, haystack: &str) -> (r: Option<(String, String, String)>)
    ensures
        split_view(r) == regex_first_match(p@, haystack@),
        r matches Some((a, b, c)) ==> a@ + b@ + c@ == haystack@,
        forall|lit: Seq<char>|
            is_literal_text(lit) && p@ == #[trigger] paren_list_regex(lit) ==> (forall|
                x: Seq<char>,
                i: int,
            | is_paren_list(lit, x) && #[trigger] occurs_at(haystack@, x, i) ==> r is Some),
        forall|lit: Seq<char>|
            is_literal_text(lit) && p@ == #[trigger] paren_list_regex(lit) ==> (r matches Some(
                (a, b, c),
            ) ==> is_paren_list(lit, b@) && forall|x: Seq<char>, i: int|
                is_paren_list(lit, x) && #[trigger] occurs_at(haystack@, x, i) ==> a@.len() <= i),
        p@ == route_call_regex() ==> forall|x: Seq<char>, i: int|
            is_route_call(x) && #[trigger] occurs_at(haystack@, x, i) ==> r is Some,
        p@ == route_call_regex() ==> (r matches Some((a, b, c)) ==> forall|x: Seq<char>, i: int|
            is_route_call(x) && #[trigger] occurs_at(haystack@, x, i) ==> a@.len() <= i && (i
                == a@.len() ==> b@ == x)),
        p@ == route_call_regex() && is_ascii_seq(haystack@) ==> (r matches Some((a, b, c))
            ==> is_route_call(b@)),
{
    match p.compiled.find(haystack) {
        Some(m) => Some(
            (
                haystack[..m.start()].to_string(),
                m.as_str().to_string(),
                haystack[m.end()..].to_string(),
            ),
        ),
        None => None,
    }
}

/// `Regex::captures(..).is_some()`: `captures` reports a match exactly when
/// `find` does, so the result is whether `regex_first_match` is `Some`. A
/// haystack that is itself a route call with ASCII names matches the route
/// pattern.
#[verifier::external_body]
pub(crate) fn has_captures(p: &Pattern, haystack: &str) -> (r: bool)
    ensures
        r == regex_first_match(p@, haystack@) is Some,
        p@ == route_call_regex() && is_route_call(haystack@) ==> r,
{
    p.compiled.captures(haystack).is_some()
}

} // verus!
