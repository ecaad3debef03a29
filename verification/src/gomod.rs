//! Reading the module path (the project name) from a `go.mod` file, and
//! interpreting the user's answers.
use vstd::prelude::*;
use crate::edit::extend_range;
use crate::search::{find_from, find_seq_from, lemma_find_from, matches_at};
use crate::text::{from_chars, is_white_space, to_chars, trim, trim_chars, trim_end, trim_start};

verus! {

/// A line without the `\r` of a `\r\n` line ending.
pub open spec fn strip_cr(line: Seq<char>) -> Seq<char> {
    if line.len() > 0 && line.last() == '\r' {
        line.drop_last()
    } else {
        line
    }
}

/// The lines of `s[k..]` (`str::lines`): split at `\n`, each line without
/// a `\r` before its `\n`; a final line ending adds no empty line.
pub open spec fn lines_from(s: Seq<char>, k: int) -> Seq<Seq<char>>
    decreases s.len() - k,
{
    if k < 0 || k >= s.len() {
        Seq::empty()
    } else {
        match find_from(s, seq!['\n'], k) {
            Some(i) => if k <= i < s.len() {
                seq![strip_cr(s.subrange(k, i))] + lines_from(s, i + 1)
            } else {
                Seq::empty()
            },
            None => seq![s.subrange(k, s.len() as int)],
        }
    }
}

/// The lines of `s` (`str::lines`).
pub open spec fn lines(s: Seq<char>) -> Seq<Seq<char>> {
    lines_from(s, 0)
}

/// `s` begins with `prefix`.
pub open spec fn starts_with(s: Seq<char>, prefix: Seq<char>) -> bool {
    prefix.len() <= s.len() && s.take(prefix.len() as int) == prefix
}

/// The first of `ls` that begins with `prefix`.
pub open spec fn first_with_prefix(ls: Seq<Seq<char>>, prefix: Seq<char>) -> Option<Seq<char>>
    decreases ls.len(),
{
    if ls.len() == 0 {
        None
    } else if starts_with(ls[0], prefix) {
        Some(ls[0])
    } else {
        first_with_prefix(ls.drop_first(), prefix)
    }
}

/// `s` with every leading repetition of a non-empty `prefix` removed
/// (`str::trim_start_matches`).
pub open spec fn strip_prefixes(s: Seq<char>, prefix: Seq<char>) -> Seq<char>
    decreases s.len(),
{
    if prefix.len() > 0 && starts_with(s, prefix) {
        strip_prefixes(s.skip(prefix.len() as int), prefix)
    } else {
        s
    }
}

/// The project name declared in a `go.mod` file: the first line that
/// begins with `module `, without its leading `module ` directives and
/// surrounding whitespace; `None` when no line declares the module.
pub open spec fn go_mod_project_name(content: Seq<char>) -> Option<Seq<char>> {
    match first_with_prefix(lines(content), "module "@) {
        Some(line) => Some(trim(strip_prefixes(line, "module "@))),
        None => None,
    }
}

fn strip_prefixes_exec(s: &Vec<char>, prefix: &Vec<char>) -> (r: Vec<char>)
    ensures
        r@ == strip_prefixes(s@, prefix@),
{
    if prefix.len() == 0 {
        return s.clone();
    }
    let mut k: usize = 0;
    assert(s@.skip(0) =~= s@);
    while k <= s.len() && matches_at(s, prefix, k)
        invariant
            prefix@.len() > 0,
            k <= s.len(),
            strip_prefixes(s@.skip(k as int), prefix@) == strip_prefixes(s@, prefix@),
        decreases s.len() - k,
    {
        assert(s@.skip(k as int).take(prefix@.len() as int) =~= s@.subrange(
            k as int,
            k + prefix@.len(),
        ));
        assert(s@.skip(k as int).skip(prefix@.len() as int) =~= s@.skip(k + prefix@.len()));
        k = k + prefix.len();
    }
    assert(s@.skip(k as int).take(prefix@.len() as int) =~= s@.subrange(k as int, k + prefix@.len())
        || prefix@.len() > s@.skip(k as int).len());
    let mut r: Vec<char> = Vec::new();
    extend_range(&mut r, s, k, s.len());
    assert(r@ =~= s@.skip(k as int));
    r
}

fn strip_cr_exec(line: Vec<char>) -> (r: Vec<char>)
    ensures
        r@ == strip_cr(line@),
{
    let mut line = line;
    if line.len() > 0 && line[line.len() - 1] == '\r' {
        line.pop();
    }
    line
}

/// The project name declared in a `go.mod` file: the first line that
/// begins with `module `, without its leading `module ` directives and
/// surrounding whitespace; `None` when no line declares the module.
pub fn project_name_from_go_mod(content: &str) -> (r: Option<String>)
    ensures
        match r {
            Some(name) => go_mod_project_name(content@) == Some(name@),
            None => go_mod_project_name(content@) is None,
        },
{
    let s = to_chars(content);
    let prefix = to_chars("module ");
    let newline = vec!['\n'];
    assert(newline@ =~= seq!['\n']);
    let mut k: usize = 0;
    loop
        invariant
            k <= s.len(),
            s@ == content@,
            prefix@ == "module "@,
            newline@ == seq!['\n'],
            first_with_prefix(lines(s@), prefix@) == first_with_prefix(lines_from(s@, k as int), prefix@),
        decreases s.len() - k,
    {
        if k >= s.len() {
            return None;
        }
        proof {
            lemma_find_from(s@, newline@, k as int);
        }
        let (line, next) = match find_seq_from(&s, &newline, k) {
            Some(i) => {
                let mut raw: Vec<char> = Vec::new();
                extend_range(&mut raw, &s, k, i);
                (strip_cr_exec(raw), i + 1)
            },
            None => {
                let mut raw: Vec<char> = Vec::new();
                extend_range(&mut raw, &s, k, s.len());
                (raw, s.len())
            },
        };
        let ghost rest = lines_from(s@, next as int);
        assert(lines_from(s@, k as int) =~= seq![line@] + rest);
        assert((seq![line@] + rest)[0] == line@);
        assert((seq![line@] + rest).drop_first() =~= rest);
        if matches_at(&line, &prefix, 0) {
            assert(line@.take(prefix@.len() as int) =~= line@.subrange(0, prefix@.len() as int));
            let stripped = strip_prefixes_exec(&line, &prefix);
            return Some(from_chars(&trim_chars(&stripped)));
        }
        assert(!starts_with(line@, prefix@)) by {
            if starts_with(line@, prefix@) {
                assert(line@.subrange(0, prefix@.len() as int) =~= line@.take(prefix@.len() as int));
            }
        };
        assert(first_with_prefix(lines_from(s@, k as int), prefix@) == first_with_prefix(rest, prefix@));
        if next >= s.len() {
            assert(rest.len() == 0);
            return None;
        }
        k = next;
    }
}

/// The project name read from `go.mod` neither starts nor ends with
/// whitespace.
pub proof fn law_project_name_trimmed(content: Seq<char>)
    ensures
        go_mod_project_name(content) matches Some(name) ==> name.len() == 0 || (!is_white_space(
            name[0],
        ) && !is_white_space(name.last())),
{
    if let Some(line) = first_with_prefix(lines(content), "module "@) {
        crate::text::lemma_trim_ends(strip_prefixes(line, "module "@));
    }
}

/// Whether an answer to a yes/no question is yes: after trimming, exactly
/// `y` in either case (`str::eq_ignore_ascii_case` with `"y"`).
pub open spec fn is_yes(answer: Seq<char>) -> bool {
    trim(answer) == seq!['y'] || trim(answer) == seq!['Y']
}

/// Whether the user's answer to a yes/no question is yes.
pub fn answer_is_yes(answer: &str) -> (r: bool)
    ensures
        r == is_yes(answer@),
{
    let t = trim_chars(&to_chars(answer));
    if t.len() != 1 {
        return false;
    }
    let c = t[0];
    if c == 'y' {
        assert(t@ =~= seq!['y']);
        true
    } else if c == 'Y' {
        assert(t@ =~= seq!['Y']);
        true
    } else {
        assert(t@ != seq!['y'] && t@ != seq!['Y']) by {
            assert(seq!['y'][0] == 'y' && seq!['Y'][0] == 'Y');
        };
        false
    }
}

/// A `go.mod` whose first line is `module <name>` declares the project
/// `<name>`: for a name on one line that neither starts nor ends with
/// whitespace (and does not itself start with `module `), followed by the
/// end of the file or a line break and any further lines.
pub proof fn law_project_name_from_module_line(name: Seq<char>, rest: Seq<char>)
    requires
        name.len() > 0,
        !is_white_space(name[0]),
        !is_white_space(name.last()),
        forall|k: int| 0 <= k < name.len() ==> #[trigger] name[k] != '\n',
        !starts_with(name, "module "@),
        rest.len() == 0 || rest[0] == '\n',
    ensures
        go_mod_project_name("module "@ + name + rest) == Some(name),
{
    let p = "module "@;
    let c = p + name + rest;
    let l = (p.len() + name.len()) as int;
    reveal_strlit("module ");
    let line = p + name;
    assert forall|j: int| 0 <= j < l implies !#[trigger] crate::search::occurs_at(c, seq!['\n'], j) by {
        assert(c.subrange(j, j + 1)[0] == c[j]);
        if j >= 7 {
            assert(c[j] == name[j - 7]);
        }
    };
    if rest.len() == 0 {
        assert(forall|j: int| 0 <= j ==> !#[trigger] crate::search::occurs_at(c, seq!['\n'], j));
        crate::search::lemma_find_from_none(c, seq!['\n'], 0);
        assert(c.subrange(0, c.len() as int) =~= line);
        assert(lines(c) =~= seq![line]);
    } else {
        assert(c.subrange(l, l + 1) =~= seq!['\n']);
        crate::search::lemma_find_from_is(c, seq!['\n'], 0, l);
        assert(c.subrange(0, l) =~= line);
        assert(strip_cr(line) == line);
        assert(lines(c)[0] == line);
    }
    assert(line.take(7) =~= p);
    assert(first_with_prefix(lines(c), p) == Some(line));
    assert(line.skip(7) =~= name);
    assert(strip_prefixes(line, p) == strip_prefixes(name, p));
    assert(strip_prefixes(name, p) == name);
    assert(trim_start(name) == name);
    assert(trim_end(name) == name);
}

} // verus!
