//! Paths as text, with `/` as the separator: file names, stems,
//! extensions, and the flattening of a path below a root. Separators that
//! repeat and `.` components name nothing of their own, so they are skipped
//! where a path ends and where the part below a root begins.

use vstd::prelude::*;
use crate::error::HookError;

verus! {

/// `i` is the last position of `c` in `s`.
pub open spec fn is_last(s: Seq<char>, c: char, i: int) -> bool {
    0 <= i < s.len() && s[i] == c && forall|e: int| i < e < s.len() ==> s[e] != c
}

pub open spec fn occurs(s: Seq<char>, c: char) -> bool {
    exists|i: int| 0 <= i < s.len() && s[i] == c
}

/// The last position of `c` in `s` (meaningful only when `occurs(s, c)`).
pub open spec fn last_of(s: Seq<char>, c: char) -> int {
    choose|i: int| is_last(s, c, i)
}

pub proof fn lemma_last_of(s: Seq<char>, c: char, i: int)
    requires
        is_last(s, c, i),
    ensures
        occurs(s, c),
        last_of(s, c) == i,
{
    assert(is_last(s, c, i));
    let j = last_of(s, c);
    assert(is_last(s, c, j));
}

/// What follows the last `/` of a path.
pub open spec fn last_segment(p: Seq<char>) -> Seq<char> {
    if occurs(p, '/') {
        p.subrange(last_of(p, '/') + 1, p.len() as int)
    } else {
        p
    }
}

/// The path without its trailing separators and trailing `.` components,
/// which name no file of their own. A lone leading `/` stays.
pub open spec fn trim_end(p: Seq<char>) -> Seq<char>
    decreases p.len(),
{
    if p.len() == 0 {
        p
    } else if p.last() == '/' && p.len() > 1 {
        trim_end(p.drop_last())
    } else if p.len() == 1 && p[0] == '.' {
        Seq::<char>::empty()
    } else if p.len() >= 2 && p.last() == '.' && p[p.len() - 2] == '/' {
        trim_end(p.drop_last())
    } else {
        p
    }
}

/// The path without its leading separators and leading `.` components.
pub open spec fn trim_start(p: Seq<char>) -> Seq<char>
    decreases p.len(),
{
    if p.len() == 0 {
        p
    } else if p[0] == '/' {
        trim_start(p.drop_first())
    } else if p[0] == '.' && (p.len() == 1 || p[1] == '/') {
        trim_start(p.drop_first())
    } else {
        p
    }
}

/// The last component of a path.
pub open spec fn file_name(p: Seq<char>) -> Seq<char> {
    last_segment(trim_end(p))
}

/// A name has an extension when its last `.` is not its first character.
pub open spec fn has_extension(name: Seq<char>) -> bool {
    occurs(name, '.') && last_of(name, '.') > 0
}

/// The file stem of a path: its file name without the extension. An empty
/// name, `.` and `..` have none.
pub open spec fn file_stem(p: Seq<char>) -> Option<Seq<char>> {
    let name = file_name(p);
    if name.len() == 0 || name == seq!['.'] || name == seq!['.', '.'] {
        None
    } else if has_extension(name) {
        Some(name.subrange(0, last_of(name, '.')))
    } else {
        Some(name)
    }
}

pub open spec fn placeholder_title() -> Seq<char> {
    "invalid-note-title"@
}

/// The title a note gets from its path: its file stem, or a placeholder.
pub open spec fn note_title(p: Seq<char>) -> Seq<char> {
    match file_stem(p) {
        Some(s) => s,
        None => placeholder_title(),
    }
}

/// The last position of `c` in `s`, if it occurs.
pub fn find_last(s: &str, c: char) -> (r: Option<usize>)
    ensures
        r is None <==> !occurs(s@, c),
        r matches Some(i) ==> is_last(s@, c, i as int) && i == last_of(s@, c),
{
    let n = s.unicode_len();
    let mut i: usize = n;
    while i > 0
        invariant
            n == s@.len(),
            i <= n,
            forall|e: int| i <= e < n ==> s@[e] != c,
        decreases i,
    {
        i = i - 1;
        if s.get_char(i) == c {
            proof {
                lemma_last_of(s@, c, i as int);
            }
            return Some(i);
        }
    }
    None
}

/// The length of `trim_end(s@)`, which is a prefix of `s@`.
pub fn trimmed_end_len(s: &str) -> (e: usize)
    ensures
        e <= s@.len(),
        s@.subrange(0, e as int) == trim_end(s@),
{
    let n = s.unicode_len();
    let mut e: usize = n;
    assert(s@.subrange(0, n as int) =~= s@);
    loop
        invariant
            n == s@.len(),
            e <= n,
            trim_end(s@.subrange(0, e as int)) == trim_end(s@),
        decreases e,
    {
        let ghost t = s@.subrange(0, e as int);
        if e > 0 {
            assert(t.drop_last() =~= s@.subrange(0, e - 1));
        }
        if e > 1 && s.get_char(e - 1) == '/' {
            e = e - 1;
        } else if e == 1 && s.get_char(0) == '.' {
            assert(trim_end(s@.subrange(0, 0)) =~= Seq::<char>::empty());
            e = 0;
        } else if e >= 2 && s.get_char(e - 1) == '.' && s.get_char(e - 2) == '/' {
            e = e - 1;
        } else {
            return e;
        }
    }
}

/// Where `trim_start(s@)` begins in `s@`; it runs to the end.
pub fn trimmed_start_pos(s: &str) -> (b: usize)
    ensures
        b <= s@.len(),
        s@.subrange(b as int, s@.len() as int) == trim_start(s@),
{
    let n = s.unicode_len();
    let mut b: usize = 0;
    assert(s@.subrange(0, n as int) =~= s@);
    loop
        invariant
            n == s@.len(),
            b <= n,
            trim_start(s@.subrange(b as int, n as int)) == trim_start(s@),
        decreases n - b,
    {
        let ghost t = s@.subrange(b as int, n as int);
        if b < n {
            assert(t.drop_first() =~= s@.subrange(b + 1, n as int));
        }
        if b < n && s.get_char(b) == '/' {
            b = b + 1;
        } else if b < n && s.get_char(b) == '.' && (b + 1 == n || s.get_char(b + 1) == '/') {
            b = b + 1;
        } else {
            return b;
        }
    }
}

/// The title of the note at `path`: its file stem, or `invalid-note-title`
/// when the path has none.
pub fn infer_note_title_from_path(path: &str) -> (r: String)
    ensures
        r@ == note_title(path@),
{
    let n = trimmed_end_len(path);
    let path = path.substring_char(0, n);
    let start: usize = match find_last(path, '/') {
        Some(i) => i + 1,
        None => 0,
    };
    let name = path.substring_char(start, n);
    assert(name@ == last_segment(path@));
    let m = name.unicode_len();
    if m == 0 || (m == 1 && name.get_char(0) == '.') || (m == 2 && name.get_char(0) == '.'
        && name.get_char(1) == '.') {
        assert(m == 1 ==> name@ =~= seq!['.'] || name@[0] != '.');
        assert(m == 2 ==> name@ =~= seq!['.', '.'] || name@[0] != '.' || name@[1] != '.');
        proof {
            reveal_strlit("invalid-note-title");
        }
        return String::from_str("invalid-note-title");
    }
    match find_last(name, '.') {
        Some(d) => {
            if d > 0 {
                String::from_str(name.substring_char(0, d))
            } else {
                String::from_str(name)
            }
        },
        None => String::from_str(name),
    }
}

} // verus!

verus! {

/// The part of `dest` below `root`. The root, without its trailing
/// separators and `.` components, must begin `dest` and end at a component
/// boundary; the part below starts after any further separators and `.`
/// components and ends before trailing ones. `None` when `dest` does not
/// lie below `root`.
pub open spec fn relative_to(dest: Seq<char>, root: Seq<char>) -> Option<Seq<char>> {
    let r = trim_end(root);
    if r.len() <= dest.len() && dest.subrange(0, r.len() as int) == r && (dest.len() == r.len()
        || dest[r.len() as int] == '/' || r.len() == 0 || r.last() == '/') {
        Some(trim_end(trim_start(dest.subrange(r.len() as int, dest.len() as int))))
    } else {
        None
    }
}

/// Position in `rel` of the dot that starts the extension of its file name.
pub open spec fn extension_dot(rel: Seq<char>) -> Option<int> {
    let name = last_segment(rel);
    if name == seq!['.', '.'] || !has_extension(name) {
        None
    } else {
        Some(rel.len() - name.len() + last_of(name, '.'))
    }
}

/// Every `.` and `/` turned into `-`.
pub open spec fn hyphenate(s: Seq<char>) -> Seq<char> {
    s.map_values(|c: char| if c == '.' || c == '/' { '-' } else { c })
}

/// The flattened form of `rel` below `root`: the directories and the stem
/// joined into one name by hyphens, the extension kept.
pub open spec fn flat_path(root: Seq<char>, rel: Seq<char>, d: int) -> Seq<char> {
    let base = if root.len() > 0 && root.last() == '/' {
        root
    } else {
        root.push('/')
    };
    let ext = rel.subrange(d + 1, rel.len() as int);
    base + hyphenate(rel.subrange(0, d)) + if ext.len() == 0 {
        Seq::<char>::empty()
    } else {
        seq!['.'] + ext
    }
}

/// The part of `dest` below `root` (see `relative_to`).
pub fn strip_root(dest: &str, root: &str) -> (r: Option<String>)
    ensures
        match r {
            Some(s) => relative_to(dest@, root@) == Some(s@),
            None => relative_to(dest@, root@) is None,
        },
{
    let n = dest.unicode_len();
    let m = trimmed_end_len(root);
    let ghost rt = trim_end(root@);
    if m > n {
        return None;
    }
    let mut i: usize = 0;
    while i < m
        invariant
            n == dest@.len(),
            m <= n,
            m <= root@.len(),
            rt == root@.subrange(0, m as int),
            rt == trim_end(root@),
            i <= m,
            forall|j: int| 0 <= j < i ==> dest@[j] == rt[j],
        decreases m - i,
    {
        if dest.get_char(i) != root.get_char(i) {
            assert(dest@.subrange(0, m as int)[i as int] != rt[i as int]);
            return None;
        }
        i = i + 1;
    }
    assert(dest@.subrange(0, m as int) =~= rt);
    if !(n == m || dest.get_char(m) == '/' || m == 0 || root.get_char(m - 1) == '/') {
        return None;
    }
    let rest = dest.substring_char(m, n);
    let b = trimmed_start_pos(rest);
    let rest = rest.substring_char(b, rest.unicode_len());
    let e = trimmed_end_len(rest);
    Some(String::from_str(rest.substring_char(0, e)))
}

/// Where the extension of the file name of `rel` starts, if it has one.
pub fn find_extension_dot(rel: &str) -> (r: Option<usize>)
    ensures
        r matches Some(d) ==> d < rel@.len() && extension_dot(rel@) == Some(d as int),
        r is None ==> extension_dot(rel@) is None,
{
    let n = rel.unicode_len();
    let start: usize = match find_last(rel, '/') {
        Some(i) => i + 1,
        None => 0,
    };
    let name = rel.substring_char(start, n);
    assert(name@ == last_segment(rel@));
    let m = name.unicode_len();
    if m == 2 && name.get_char(0) == '.' && name.get_char(1) == '.' {
        assert(name@ =~= seq!['.', '.']);
        return None;
    }
    match find_last(name, '.') {
        Some(d) => {
            if d > 0 {
                Some(start + d)
            } else {
                None
            }
        },
        None => None,
    }
}

/// Rewrites `dest`, which lies below `root`, so that everything between the
/// root and the extension becomes one file name: each `/` and `.` in it is
/// replaced by `-`. Fails when `dest` is not below `root` or has no
/// extension.
pub fn flatten_path(dest: &str, root: &str) -> (r: Result<String, HookError>)
    ensures
        match relative_to(dest@, root@) {
            None => r == Err::<String, HookError>(HookError::OutsideRoot),
            Some(rel) => match extension_dot(rel) {
                None => r == Err::<String, HookError>(HookError::NoExtension),
                Some(d) => r matches Ok(p) && p@ == flat_path(root@, rel, d),
            },
        },
{
    let rel = match strip_root(dest, root) {
        Some(rel) => rel,
        None => {
            return Err(HookError::OutsideRoot);
        },
    };
    let rel = rel.as_str();
    let d = match find_extension_dot(rel) {
        Some(d) => d,
        None => {
            return Err(HookError::NoExtension);
        },
    };
    let n = rel.unicode_len();
    let m = root.unicode_len();
    let mut out = String::from_str(root);
    if !(m > 0 && root.get_char(m - 1) == '/') {
        out.append("/");
        proof {
            reveal_strlit("/");
        }
    }
    let ghost base = out@;
    let mut i: usize = 0;
    while i < d
        invariant
            n == rel@.len(),
            d < n,
            i <= d,
            out@ == base + hyphenate(rel@.subrange(0, i as int)),
        decreases d - i,
    {
        let c = rel.get_char(i);
        if c == '.' || c == '/' {
            out.append("-");
            proof {
                reveal_strlit("-");
            }
        } else {
            out.append(rel.substring_char(i, i + 1));
        }
        assert(hyphenate(rel@.subrange(0, i + 1)) =~= hyphenate(rel@.subrange(0, i as int)).push(
            if c == '.' || c == '/' { '-' } else { c },
        ));
        i = i + 1;
    }
    if d + 1 < n {
        out.append(".");
        out.append(rel.substring_char(d + 1, n));
        proof {
            reveal_strlit(".");
        }
    }
    let ghost ext = rel@.subrange(d + 1, n as int);
    assert(out@ =~= flat_path(root@, rel@, d as int));
    Ok(out)
}

} // verus!
