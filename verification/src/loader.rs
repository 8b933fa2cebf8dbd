//! Resolve "require": the files that a source file requires.
//!
//! A source file begins with lines `require "name"`; each name is found next to the file that
//! requires it. Reading the files is done around the library.
use vstd::prelude::*;
use crate::strs::{concat, starts_with, strings_view, to_owned};

verus! {

/// Whether `c` is whitespace: the characters of the Unicode property `White_Space`, as
/// `char::is_whitespace` has it
pub open spec fn spec_is_whitespace(c: char) -> bool {
    ('\t' <= c && c <= '\r') || c == ' ' || c == '\u{85}' || c == '\u{a0}' || c == '\u{1680}' || ('\u{2000}' <= c
        && c <= '\u{200a}') || c == '\u{2028}' || c == '\u{2029}' || c == '\u{202f}' || c == '\u{205f}' || c
        == '\u{3000}'
}

/// `s` without its leading whitespace
pub open spec fn trim_start_v(s: Seq<char>) -> Seq<char>
    decreases s.len(),
{
    if s.len() > 0 && spec_is_whitespace(s[0]) {
        trim_start_v(s.drop_first())
    } else {
        s
    }
}

/// `s` without its trailing whitespace
pub open spec fn trim_end_v(s: Seq<char>) -> Seq<char>
    decreases s.len(),
{
    if s.len() > 0 && spec_is_whitespace(s.last()) {
        trim_end_v(s.drop_last())
    } else {
        s
    }
}

/// `s` without the copies of the non-empty `p` that it begins with
pub open spec fn trim_start_matches_v(s: Seq<char>, p: Seq<char>) -> Seq<char>
    decreases s.len(),
{
    if p.len() > 0 && p.len() <= s.len() && s.take(p.len() as int) == p {
        trim_start_matches_v(s.skip(p.len() as int), p)
    } else {
        s
    }
}

/// `s` without the copies of `c` that it begins with
pub open spec fn trim_start_char_v(s: Seq<char>, c: char) -> Seq<char>
    decreases s.len(),
{
    if s.len() > 0 && s[0] == c {
        trim_start_char_v(s.drop_first(), c)
    } else {
        s
    }
}

/// `s` without the copies of `c` that it ends with
pub open spec fn trim_end_char_v(s: Seq<char>, c: char) -> Seq<char>
    decreases s.len(),
{
    if s.len() > 0 && s.last() == c {
        trim_end_char_v(s.drop_last(), c)
    } else {
        s
    }
}

/// `"require"`
pub open spec fn require_word() -> Seq<char> {
    seq!['r', 'e', 'q', 'u', 'i', 'r', 'e']
}

/// The name that the line `require "name"` requires
pub open spec fn require_name_v(line: Seq<char>) -> Seq<char> {
    trim_end_char_v(
        trim_end_v(trim_start_char_v(trim_start_v(trim_start_matches_v(trim_start_v(line), require_word())), '"')),
        '"',
    )
}

/// The index of the first newline in `s`, if any
pub open spec fn first_newline(s: Seq<char>) -> Option<int>
    decreases s.len(),
{
    if s.len() == 0 {
        None
    } else if s[0] == '\n' {
        Some(0)
    } else {
        match first_newline(s.drop_first()) {
            Some(i) => Some(i + 1),
            None => None,
        }
    }
}

/// A line without the carriage return that ends it, if any
pub open spec fn strip_cr(l: Seq<char>) -> Seq<char> {
    if l.len() > 0 && l.last() == '\r' {
        l.drop_last()
    } else {
        l
    }
}

/// The lines of `s`, as `str::lines` has them: split at `\n` or `\r\n`, without the line
/// endings; the final line ending is optional
pub open spec fn lines_v(s: Seq<char>) -> Seq<Seq<char>>
    decreases s.len(),
{
    if s.len() == 0 {
        Seq::empty()
    } else {
        match first_newline(s) {
            Some(i) => if 0 <= i < s.len() {
                seq![strip_cr(s.take(i))] + lines_v(s.skip(i + 1))
            } else {
                Seq::empty()
            },
            None => seq![s],
        }
    }
}

/// The names required by the `require` lines at the beginning of `lines`
pub open spec fn requires_v(lines: Seq<Seq<char>>) -> Seq<Seq<char>>
    decreases lines.len(),
{
    if lines.len() == 0 || !(require_word().len() <= trim_start_v(lines[0]).len() && trim_start_v(lines[0]).take(
        require_word().len() as int,
    ) == require_word()) {
        Seq::empty()
    } else {
        seq![require_name_v(lines[0])] + requires_v(lines.drop_first())
    }
}

/// Whether `c` is whitespace
fn is_whitespace(c: char) -> (r: bool)
    ensures
        r == spec_is_whitespace(c),
{
    ('\t' <= c && c <= '\r') || c == ' ' || c == '\u{85}' || c == '\u{a0}' || c == '\u{1680}' || ('\u{2000}' <= c
        && c <= '\u{200a}') || c == '\u{2028}' || c == '\u{2029}' || c == '\u{202f}' || c == '\u{205f}' || c
        == '\u{3000}'
}

/// The first position at or after `a` (and before `b`) that is not whitespace
fn skip_ws(s: &str, a: usize, b: usize) -> (r: usize)
    requires
        a <= b <= s@.len(),
    ensures
        a <= r <= b,
        trim_start_v(s@.subrange(a as int, b as int)) == trim_start_v(s@.subrange(r as int, b as int)),
        r < b ==> !spec_is_whitespace(s@[r as int]),
{
    let mut i = a;
    while i < b && is_whitespace(s.get_char(i))
        invariant
            a <= i <= b <= s@.len(),
            trim_start_v(s@.subrange(a as int, b as int)) == trim_start_v(s@.subrange(i as int, b as int)),
        decreases b - i,
    {
        assert(s@.subrange(i as int, b as int).drop_first() =~= s@.subrange(i + 1, b as int));
        i += 1;
    }
    i
}

/// The name in the line `require "name"`
fn require_name(line: &str) -> (r: String)
    ensures
        r@ == require_name_v(line@),
{
    proof {
        reveal_strlit("require");
        assert("require"@ =~= require_word());
    }
    let n = line.unicode_len();
    let ghost s = line@;
    assert(s.subrange(0, n as int) =~= s);
    let mut a = skip_ws(line, 0, n);
    let ghost t = trim_start_v(s);
    assert(t == trim_start_v(s.subrange(a as int, n as int)));
    // `trim_start_v` stops at `a`
    assert(trim_start_v(s.subrange(a as int, n as int)) == s.subrange(a as int, n as int));
    // trim_start_matches("require")
    while n - a >= 7 && starts_with(line.substring_char(a, n), "require")
        invariant
            0 <= a <= n,
            n == s.len(),
            s == line@,
            "require"@ == require_word(),
            trim_start_matches_v(t, require_word()) == trim_start_matches_v(s.subrange(a as int, n as int), require_word()),
        decreases n - a,
    {
        assert(s.subrange(a as int, n as int).take(7) =~= s.subrange(a as int, n as int).subrange(0, 7));
        assert(s.subrange(a as int, n as int).skip(7) =~= s.subrange(a + 7, n as int));
        a += 7;
    }
    proof {
        let u = s.subrange(a as int, n as int);
        if 7 <= u.len() && u.take(7) == require_word() {
            assert(u.subrange(0, 7) =~= u.take(7));
        }
    }
    let ghost m = trim_start_matches_v(t, require_word());
    assert(m == s.subrange(a as int, n as int));
    let a2 = skip_ws(line, a, n);
    // trim_start_matches('"')
    let mut a3 = a2;
    while a3 < n && line.get_char(a3) == '"'
        invariant
            a2 <= a3 <= n,
            n == s.len(),
            s == line@,
            trim_start_char_v(trim_start_v(m), '"') == trim_start_char_v(s.subrange(a3 as int, n as int), '"'),
        decreases n - a3,
    {
        assert(s.subrange(a3 as int, n as int).drop_first() =~= s.subrange(a3 + 1, n as int));
        a3 += 1;
    }
    let ghost q = trim_start_char_v(trim_start_v(m), '"');
    assert(q == s.subrange(a3 as int, n as int));
    // trim_end()
    let mut b = n;
    while b > a3 && is_whitespace(line.get_char(b - 1))
        invariant
            a3 <= b <= n,
            n == s.len(),
            s == line@,
            trim_end_v(q) == trim_end_v(s.subrange(a3 as int, b as int)),
        decreases b - a3,
    {
        assert(s.subrange(a3 as int, b as int).drop_last() =~= s.subrange(a3 as int, b - 1));
        b -= 1;
    }
    let ghost w = trim_end_v(q);
    assert(w == s.subrange(a3 as int, b as int));
    // trim_end_matches('"')
    let mut b2 = b;
    while b2 > a3 && line.get_char(b2 - 1) == '"'
        invariant
            a3 <= b2 <= b,
            b <= n,
            n == s.len(),
            s == line@,
            trim_end_char_v(w, '"') == trim_end_char_v(s.subrange(a3 as int, b2 as int), '"'),
        decreases b2 - a3,
    {
        assert(s.subrange(a3 as int, b2 as int).drop_last() =~= s.subrange(a3 as int, b2 - 1));
        b2 -= 1;
    }
    to_owned(line.substring_char(a3, b2))
}

/// The newline at `j` of `t` is its first one (`j == t.len()`: it has none).
proof fn lemma_first_newline(t: Seq<char>, j: int)
    requires
        0 <= j <= t.len(),
        forall|k: int| 0 <= k < j ==> t[k] != '\n',
        j < t.len() ==> t[j] == '\n',
    ensures
        first_newline(t) == (if j < t.len() {
            Some(j)
        } else {
            None::<int>
        }),
    decreases t.len(),
{
    if t.len() > 0 && j > 0 {
        assert forall|k: int| 0 <= k < j - 1 implies t.drop_first()[k] != '\n' by {
            assert(t.drop_first()[k] == t[k + 1]);
        }
        lemma_first_newline(t.drop_first(), j - 1);
    }
}

/// Whether `line` is a `require` line: it begins with `require` after its leading whitespace
fn is_require_line(line: &str) -> (r: bool)
    ensures
        r == (require_word().len() <= trim_start_v(line@).len() && trim_start_v(line@).take(
            require_word().len() as int,
        ) == require_word()),
{
    proof {
        reveal_strlit("require");
        assert("require"@ =~= require_word());
    }
    let n = line.unicode_len();
    assert(line@.subrange(0, n as int) =~= line@);
    let a = skip_ws(line, 0, n);
    let rest = line.substring_char(a, n);
    assert(trim_start_v(rest@) == rest@);
    let r = starts_with(rest, "require");
    proof {
        if 7 <= rest@.len() {
            assert(rest@.take(7) =~= rest@.subrange(0, 7));
        }
    }
    r
}

/// The names that the `require` lines at the beginning of `content` require
fn require_names(content: &str) -> (r: Vec<String>)
    ensures
        strings_view(r@) == requires_v(lines_v(content@)),
{
    let n = content.unicode_len();
    let ghost s = content@;
    let mut paths: Vec<String> = Vec::new();
    let mut p: usize = 0;
    assert(s.skip(0) =~= s);
    assert(strings_view(paths@) =~= Seq::<Seq<char>>::empty());
    while p < n
        invariant
            0 <= p <= n,
            n == s.len(),
            s == content@,
            requires_v(lines_v(s)) == strings_view(paths@) + requires_v(lines_v(s.skip(p as int))),
        decreases n - p,
    {
        let ghost t = s.skip(p as int);
        // The end of the line
        let mut i = p;
        while i < n && content.get_char(i) != '\n'
            invariant
                p <= i <= n,
                n == s.len(),
                s == content@,
                forall|k: int| p <= k < i ==> s[k] != '\n',
            decreases n - i,
        {
            i += 1;
        }
        proof {
            assert forall|k: int| 0 <= k < i - p implies t[k] != '\n' by {
                assert(t[k] == s[p + k]);
            }
            if i < n {
                assert(t[i - p] == s[i as int]);
            }
            lemma_first_newline(t, i - p);
        }
        let line_end = if i < n && i > p && content.get_char(i - 1) == '\r' {
            i - 1
        } else {
            i
        };
        let line = content.substring_char(p, line_end);
        proof {
            if i < n {
                assert(t.take(i - p) =~= s.subrange(p as int, i as int));
                if line_end < i {
                    assert(strip_cr(t.take(i - p)) =~= line@);
                } else {
                    assert(strip_cr(t.take(i - p)) =~= line@);
                }
                assert(t.skip(i - p + 1) =~= s.skip(i + 1));
                assert(lines_v(t) == seq![line@] + lines_v(s.skip(i + 1)));
            } else {
                assert(t =~= line@);
                assert(lines_v(t) == seq![line@]);
            }
        }
        let ghost ls = lines_v(t);
        if !is_require_line(line) {
            assert(requires_v(ls) =~= Seq::<Seq<char>>::empty());
            assert(strings_view(paths@) + requires_v(ls) =~= strings_view(paths@));
            return paths;
        }
        let name = require_name(line);
        let ghost before = strings_view(paths@);
        paths.push(name);
        proof {
            assert(strings_view(paths@) =~= before.push(require_name_v(line@)));
            assert(ls.drop_first() =~= (if i < n { lines_v(s.skip(i + 1)) } else { Seq::<Seq<char>>::empty() }));
            assert(requires_v(ls) == seq![require_name_v(line@)] + requires_v(ls.drop_first()));
        }
        if i < n {
            p = i + 1;
            proof {
                assert(before + requires_v(ls) =~= strings_view(paths@) + requires_v(lines_v(s.skip(p as int))));
            }
        } else {
            proof {
                assert(requires_v(ls.drop_first()) =~= Seq::<Seq<char>>::empty());
                assert(before + requires_v(ls) =~= strings_view(paths@));
            }
            return paths;
        }
    }
    proof {
        assert(s.skip(p as int) =~= Seq::<char>::empty());
        assert(strings_view(paths@) + requires_v(lines_v(s.skip(p as int))) =~= strings_view(paths@));
    }
    paths
}

/// The index of the last `/` of `s`, if any
pub open spec fn last_slash(s: Seq<char>) -> Option<int>
    decreases s.len(),
{
    if s.len() == 0 {
        None
    } else if s.last() == '/' {
        Some(s.len() - 1)
    } else {
        last_slash(s.drop_last())
    }
}

/// The directory part of `path`: its text up to and including its last `/`; empty where it has
/// none
pub open spec fn dir_of(path: Seq<char>) -> Seq<char> {
    match last_slash(path) {
        Some(i) => path.take(i + 1),
        None => Seq::empty(),
    }
}

/// The path of the file `name` next to the file `path`: the directory of `path` followed by
/// `name`, or `name` itself where it is absolute (begins with `/`)
pub open spec fn with_file_name_v(path: Seq<char>, name: Seq<char>) -> Seq<char> {
    if name.len() > 0 && name[0] == '/' {
        name
    } else {
        dir_of(path) + name
    }
}

/// The path of the file `name` next to the file `path`, eg. `dir/a.sk` for `dir/main.sk`
pub fn with_file_name(path: &str, name: &str) -> (r: String)
    ensures
        r@ == with_file_name_v(path@, name@),
{
    let n = path.unicode_len();
    let mut last: Option<usize> = None;
    let mut i: usize = 0;
    assert(path@.take(0) =~= Seq::<char>::empty());
    while i < n
        invariant
            0 <= i <= n,
            n == path@.len(),
            match last {
                Some(k) => last_slash(path@.take(i as int)) == Some(k as int),
                None => last_slash(path@.take(i as int)) is None,
            },
            last matches Some(k) ==> k < i,
        decreases n - i,
    {
        proof {
            let t = path@.take(i + 1);
            assert(t.drop_last() =~= path@.take(i as int));
            assert(t.last() == path@[i as int]);
        }
        if path.get_char(i) == '/' {
            last = Some(i);
        }
        i += 1;
    }
    assert(path@.take(n as int) =~= path@);
    let absolute = name.unicode_len() > 0 && name.get_char(0) == '/';
    if absolute {
        to_owned(name)
    } else {
        match last {
            Some(k) => {
                let dir = path.substring_char(0, k + 1);
                assert(dir@ =~= path@.take(k + 1));
                concat(dir, name)
            },
            None => {
                assert(Seq::<char>::empty() + name@ =~= name@);
                to_owned(name)
            },
        }
    }
}

/// Expand filepath in require: the file that the line `require "name"` in the file `path`
/// requires, next to `path`
pub fn parse_require(line: &str, path: &str) -> (r: String)
    ensures
        r@ == with_file_name_v(path@, require_name_v(line@)),
{
    let name = require_name(line);
    with_file_name(path, name.as_str())
}

/// Read require'd files: the files that the `require` lines at the beginning of `content`, the
/// text of the file `path`, require, each next to `path`
pub fn resolve_requires(path: &str, content: &str) -> (r: Vec<String>)
    ensures
        r@.len() == requires_v(lines_v(content@)).len(),
        forall|i: int|
            0 <= i < r@.len() ==> (#[trigger] r@[i])@ == with_file_name_v(path@, requires_v(lines_v(content@))[i]),
{
    let names = require_names(content);
    let mut paths: Vec<String> = Vec::new();
    let mut i: usize = 0;
    while i < names.len()
        invariant
            0 <= i <= names@.len(),
            strings_view(names@) == requires_v(lines_v(content@)),
            paths@.len() == i,
            forall|j: int| 0 <= j < i ==> (#[trigger] paths@[j])@ == with_file_name_v(path@, names@[j]@),
        decreases names.len() - i,
    {
        paths.push(with_file_name(path, names[i].as_str()));
        i += 1;
    }
    assert forall|j: int| 0 <= j < paths@.len() implies (#[trigger] paths@[j])@ == with_file_name_v(
        path@,
        requires_v(lines_v(content@))[j],
    ) by {
        assert(strings_view(names@)[j] == names@[j]@);
    }
    paths
}

} // verus!
