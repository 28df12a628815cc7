use vstd::prelude::*;

verus! {

// Paths are Windows paths held as text, read as `std::path` reads them on
// Windows. A path may start with a prefix that is not a component: a drive
// (`C:`), a UNC share (`\\server\share`), a device (`\\.\COM1`), or a
// verbatim prefix (`\\?\...`, `\\?\C:`, `\\?\UNC\server\share`).
// After a verbatim prefix only `\` separates components and `.` is a
// component of its own; otherwise `\` and `/` both separate and `.` is
// dropped.

pub open spec fn is_sep(c: char) -> bool {
    c == '\\' || c == '/'
}

/// A separator of a path that is (or is not) verbatim.
pub open spec fn is_sep_in(c: char, verbatim: bool) -> bool {
    c == '\\' || (!verbatim && c == '/')
}

pub open spec fn is_ascii_alpha(c: char) -> bool {
    ('a' <= c && c <= 'z') || ('A' <= c && c <= 'Z')
}

/// End of the component that starts at `i`: the first separator at or
/// after `i`, or the end of the path.
pub open spec fn component_end(p: Seq<char>, i: int, verbatim: bool) -> int
    decreases p.len() - i,
{
    if i >= p.len() {
        p.len() as int
    } else if is_sep_in(p[i], verbatim) {
        i
    } else {
        component_end(p, i + 1, verbatim)
    }
}

/// Whether the path starts with the verbatim prefix `\\?\`.
pub open spec fn is_verbatim(p: Seq<char>) -> bool {
    p.len() >= 4 && p[0] == '\\' && p[1] == '\\' && p[2] == '?' && p[3] == '\\'
}

/// End of a server and share pair whose server starts at `i`: the share
/// counts only when it is not empty.
pub open spec fn server_share_end(p: Seq<char>, i: int, verbatim: bool) -> int {
    let e1 = component_end(p, i, verbatim);
    if e1 < p.len() && component_end(p, e1 + 1, verbatim) > e1 + 1 {
        component_end(p, e1 + 1, verbatim)
    } else {
        e1
    }
}

/// Length of the prefix at the start of a path, or 0 when it has none.
pub open spec fn prefix_len(p: Seq<char>) -> int {
    if p.len() >= 2 && is_sep(p[0]) && is_sep(p[1]) {
        if is_verbatim(p) {
            if p.len() >= 8 && p[4] == 'U' && p[5] == 'N' && p[6] == 'C' && p[7] == '\\' {
                server_share_end(p, 8, true)
            } else if p.len() >= 6 && is_ascii_alpha(p[4]) && p[5] == ':' && (p.len() == 6 || p[6]
                == '\\') {
                6
            } else {
                component_end(p, 4, true)
            }
        } else if p.len() >= 4 && p[2] == '.' && is_sep(p[3]) {
            component_end(p, 4, false)
        } else {
            let e1 = component_end(p, 2, false);
            let e2 = server_share_end(p, 2, false);
            if e1 > 2 && e2 > e1 {
                e2
            } else {
                0
            }
        }
    } else if p.len() >= 2 && is_ascii_alpha(p[0]) && p[1] == ':' {
        2
    } else {
        0
    }
}

/// Index of the last separator at or after `lo` and before `hi`, or `lo - 1`.
pub open spec fn last_sep_before(p: Seq<char>, lo: int, hi: int, verbatim: bool) -> int
    decreases hi - lo,
{
    if hi <= lo {
        lo - 1
    } else if is_sep_in(p[hi - 1], verbatim) {
        hi - 1
    } else {
        last_sep_before(p, lo, hi - 1, verbatim)
    }
}

/// Whether a segment between separators is a component that counts: not
/// empty, and not `.` unless the path is verbatim.
pub open spec fn counts_as_component(seg: Seq<char>, verbatim: bool) -> bool {
    seg.len() > 0 && (verbatim || seg != seq!['.'])
}

/// Start and end of the last counting component of `p[lo..hi]`; `(lo, lo)`
/// when there is none.
pub open spec fn last_component_bounds(p: Seq<char>, lo: int, hi: int, verbatim: bool) -> (int, int)
    decreases hi - lo,
{
    if hi <= lo {
        (lo, lo)
    } else {
        let s = last_sep_before(p, lo, hi, verbatim);
        let seg = p.subrange(s + 1, hi);
        if counts_as_component(seg, verbatim) {
            (s + 1, hi)
        } else if s < lo {
            (lo, lo)
        } else {
            proof {
                lemma_sep_below(p, lo, hi, verbatim);
            }
            last_component_bounds(p, lo, s, verbatim)
        }
    }
}

/// The last normal component of a path, as `Path::file_name` gives it: the
/// last component after the prefix, unless that is `..` (or a verbatim
/// `.`) or there is none.
pub open spec fn file_name(p: Seq<char>) -> Option<Seq<char>> {
    let v = is_verbatim(p);
    let b = last_component_bounds(p, prefix_len(p), p.len() as int, v);
    let seg = p.subrange(b.0, b.1);
    if seg.len() == 0 || seg == seq!['.', '.'] || (v && seg == seq!['.']) {
        None
    } else {
        Some(seg)
    }
}

/// The name a path is shown by: its file name, or the whole path when it
/// has none (a drive root, for one).
pub open spec fn display_name(p: Seq<char>) -> Seq<char> {
    match file_name(p) {
        Some(n) => n,
        None => p,
    }
}

/// Index of the last `.` in `s[0..hi]`, or -1.
pub open spec fn last_dot_before(s: Seq<char>, hi: int) -> int
    decreases hi,
{
    if hi <= 0 {
        -1
    } else if s[hi - 1] == '.' {
        hi - 1
    } else {
        last_dot_before(s, hi - 1)
    }
}

/// The extension of a file name, as `Path::extension` gives it: the text
/// after the last `.`, unless that `.` is the first character or there is
/// none.
pub open spec fn extension_of_name(name: Seq<char>) -> Option<Seq<char>> {
    let d = last_dot_before(name, name.len() as int);
    if name == seq!['.', '.'] || d <= 0 {
        None
    } else {
        Some(name.subrange(d + 1, name.len() as int))
    }
}

pub open spec fn extension(p: Seq<char>) -> Option<Seq<char>> {
    match file_name(p) {
        Some(n) => extension_of_name(n),
        None => None,
    }
}

pub proof fn lemma_sep_below(p: Seq<char>, lo: int, hi: int, verbatim: bool)
    ensures
        hi > lo ==> lo - 1 <= last_sep_before(p, lo, hi, verbatim) < hi,
    decreases hi - lo,
{
    if hi > lo && !is_sep_in(p[hi - 1], verbatim) {
        lemma_sep_below(p, lo, hi - 1, verbatim);
        assert(last_sep_before(p, lo, lo, verbatim) == lo - 1);
    }
}

proof fn lemma_last_sep_before(p: Seq<char>, lo: int, hi: int, verbatim: bool)
    requires
        0 <= lo <= hi <= p.len(),
    ensures
        lo - 1 <= last_sep_before(p, lo, hi, verbatim) < hi,
        last_sep_before(p, lo, hi, verbatim) >= lo ==> is_sep_in(p[last_sep_before(p, lo, hi, verbatim)], verbatim),
        forall|k: int|
            last_sep_before(p, lo, hi, verbatim) < k < hi && k >= lo ==> !is_sep_in(#[trigger] p[k], verbatim),
    decreases hi - lo,
{
    if hi > lo && !is_sep_in(p[hi - 1], verbatim) {
        lemma_last_sep_before(p, lo, hi - 1, verbatim);
    }
}

proof fn lemma_last_component_bounds(p: Seq<char>, lo: int, hi: int, verbatim: bool)
    requires
        0 <= lo <= hi <= p.len(),
    ensures
        lo <= last_component_bounds(p, lo, hi, verbatim).0 <= last_component_bounds(p, lo, hi, verbatim).1 <= hi,
    decreases hi - lo,
{
    if hi > lo {
        lemma_last_sep_before(p, lo, hi, verbatim);
        let s = last_sep_before(p, lo, hi, verbatim);
        let seg = p.subrange(s + 1, hi);
        if !counts_as_component(seg, verbatim) && s >= lo {
            lemma_last_component_bounds(p, lo, s, verbatim);
        }
    }
}

proof fn lemma_component_end(p: Seq<char>, i: int, verbatim: bool)
    requires
        0 <= i <= p.len(),
    ensures
        i <= component_end(p, i, verbatim) <= p.len(),
    decreases p.len() - i,
{
    if i < p.len() && !is_sep_in(p[i], verbatim) {
        lemma_component_end(p, i + 1, verbatim);
    }
}

proof fn lemma_last_dot_before(s: Seq<char>, hi: int)
    requires
        0 <= hi <= s.len(),
    ensures
        -1 <= last_dot_before(s, hi) < hi,
        last_dot_before(s, hi) >= 0 ==> s[last_dot_before(s, hi)] == '.',
        forall|k: int| last_dot_before(s, hi) < k < hi ==> #[trigger] s[k] != '.',
    decreases hi,
{
    if hi > 0 && s[hi - 1] != '.' {
        lemma_last_dot_before(s, hi - 1);
    }
}

/// Copies the characters of a string into a vector.
pub fn chars_of(s: &str) -> (r: Vec<char>)
    ensures
        r@ == s@,
{
    let n = s.unicode_len();
    let mut r: Vec<char> = Vec::new();
    let mut i: usize = 0;
    while i < n
        invariant
            n == s@.len(),
            i <= n,
            r@ == s@.subrange(0, i as int),
        decreases n - i,
    {
        r.push(s.get_char(i));
        i = i + 1;
    }
    r
}

/// Builds a string from a sequence of characters `v[lo..hi]`.
pub fn string_of_range(s: &str, lo: usize, hi: usize) -> (r: String)
    requires
        lo <= hi <= s@.len(),
    ensures
        r@ == s@.subrange(lo as int, hi as int),
{
    s.substring_char(lo, hi).to_owned()
}

fn is_sep_char(c: char) -> (b: bool)
    ensures
        b == is_sep(c),
{
    c == '\\' || c == '/'
}

fn is_sep_in_char(c: char, verbatim: bool) -> (b: bool)
    ensures
        b == is_sep_in(c, verbatim),
{
    c == '\\' || (!verbatim && c == '/')
}

fn is_alpha_char(c: char) -> (b: bool)
    ensures
        b == is_ascii_alpha(c),
{
    ('a' <= c && c <= 'z') || ('A' <= c && c <= 'Z')
}

fn component_end_exec(p: &Vec<char>, i: usize, verbatim: bool) -> (r: usize)
    requires
        i <= p@.len(),
    ensures
        r as int == component_end(p@, i as int, verbatim),
        i <= r <= p@.len(),
{
    let mut j = i;
    while j < p.len() && !is_sep_in_char(p[j], verbatim)
        invariant
            i <= j <= p@.len(),
            component_end(p@, j as int, verbatim) == component_end(p@, i as int, verbatim),
        decreases p@.len() - j,
    {
        j = j + 1;
    }
    j
}

fn server_share_end_exec(p: &Vec<char>, i: usize, verbatim: bool) -> (r: usize)
    requires
        i <= p@.len(),
    ensures
        r as int == server_share_end(p@, i as int, verbatim),
        i <= r <= p@.len(),
{
    let e1 = component_end_exec(p, i, verbatim);
    if e1 < p.len() {
        let e2 = component_end_exec(p, e1 + 1, verbatim);
        if e2 > e1 + 1 {
            return e2;
        }
    }
    e1
}

fn is_verbatim_exec(p: &Vec<char>) -> (b: bool)
    ensures
        b == is_verbatim(p@),
{
    p.len() >= 4 && p[0] == '\\' && p[1] == '\\' && p[2] == '?' && p[3] == '\\'
}

fn prefix_len_exec(p: &Vec<char>) -> (r: usize)
    ensures
        r == prefix_len(p@),
        r <= p@.len(),
{
    let n = p.len();
    if n >= 2 && is_sep_char(p[0]) && is_sep_char(p[1]) {
        if is_verbatim_exec(p) {
            if n >= 8 && p[4] == 'U' && p[5] == 'N' && p[6] == 'C' && p[7] == '\\' {
                server_share_end_exec(p, 8, true)
            } else if n >= 6 && is_alpha_char(p[4]) && p[5] == ':' && (n == 6 || p[6] == '\\') {
                6
            } else {
                component_end_exec(p, 4, true)
            }
        } else if n >= 4 && p[2] == '.' && is_sep_char(p[3]) {
            component_end_exec(p, 4, false)
        } else {
            let e1 = component_end_exec(p, 2, false);
            let e2 = server_share_end_exec(p, 2, false);
            if e1 > 2 && e2 > e1 {
                e2
            } else {
                0
            }
        }
    } else if n >= 2 && is_alpha_char(p[0]) && p[1] == ':' {
        2
    } else {
        0
    }
}

/// Bounds of the last counting component of `p` after its prefix (see
/// `file_name`).
fn component_bounds(p: &Vec<char>, verbatim: bool) -> (r: (usize, usize))
    requires
        verbatim == is_verbatim(p@),
    ensures
        r.0 as int == last_component_bounds(p@, prefix_len(p@), p@.len() as int, verbatim).0,
        r.1 as int == last_component_bounds(p@, prefix_len(p@), p@.len() as int, verbatim).1,
        r.0 <= r.1 <= p@.len(),
{
    let lo = prefix_len_exec(p);
    let mut hi = p.len();
    proof {
        lemma_last_component_bounds(p@, lo as int, hi as int, verbatim);
    }
    loop
        invariant
            lo <= hi <= p@.len(),
            lo == prefix_len(p@),
            last_component_bounds(p@, lo as int, hi as int, verbatim) == last_component_bounds(
                p@,
                lo as int,
                p@.len() as int,
                verbatim,
            ),
        decreases hi - lo,
    {
        if hi <= lo {
            return (lo, lo);
        }
        let mut j = hi;
        while j > lo && !is_sep_in_char(p[j - 1], verbatim)
            invariant
                lo <= j <= hi <= p@.len(),
                last_sep_before(p@, lo as int, hi as int, verbatim) == last_sep_before(
                    p@,
                    lo as int,
                    j as int,
                    verbatim,
                ),
            decreases j,
        {
            j = j - 1;
        }
        proof {
            lemma_last_sep_before(p@, lo as int, hi as int, verbatim);
        }
        assert(last_sep_before(p@, lo as int, j as int, verbatim) == j - 1);
        let seg_len = hi - j;
        let is_dot = seg_len == 1 && p[j] == '.';
        proof {
            let seg = p@.subrange(j as int, hi as int);
            if seg_len == 1 {
                assert(seg[0] == p@[j as int]);
                if p@[j as int] == '.' {
                    assert(seg =~= seq!['.']);
                } else {
                    assert(seg != seq!['.']);
                }
            } else {
                assert(seg.len() != 1);
            }
        }
        if seg_len > 0 && (verbatim || !is_dot) {
            return (j, hi);
        } else if j == lo {
            return (lo, lo);
        } else {
            hi = j - 1;
        }
    }
}

/// The file name of a path (see `file_name`).
pub fn path_file_name(path: &str) -> (r: Option<String>)
    ensures
        match r {
            Some(n) => file_name(path@) == Some(n@),
            None => file_name(path@) is None,
        },
{
    let p = chars_of(path);
    let verbatim = is_verbatim_exec(&p);
    let (a, b) = component_bounds(&p, verbatim);
    let seg_len = b - a;
    if seg_len == 0 {
        return None;
    }
    let dot = seg_len == 1 && p[a] == '.';
    let dotdot = seg_len == 2 && p[a] == '.' && p[a + 1] == '.';
    proof {
        let seg = p@.subrange(a as int, b as int);
        if seg_len == 1 {
            assert(seg[0] == p@[a as int]);
            if dot {
                assert(seg =~= seq!['.']);
            } else {
                assert(seg != seq!['.']);
            }
        } else {
            assert(seg.len() != 1);
        }
        if seg_len == 2 {
            assert(seg[0] == p@[a as int]);
            assert(seg[1] == p@[a + 1]);
            if dotdot {
                assert(seg =~= seq!['.', '.']);
            } else {
                assert(seg != seq!['.', '.']);
            }
        } else {
            assert(seg.len() != 2);
        }
    }
    if dotdot || (verbatim && dot) {
        None
    } else {
        Some(string_of_range(path, a, b))
    }
}

/// The name a path is shown by (see `display_name`).
pub fn path_display_name(path: &str) -> (r: String)
    ensures
        r@ == display_name(path@),
{
    match path_file_name(path) {
        Some(n) => n,
        None => path.to_owned(),
    }
}

/// The extension of a path, as characters (see `extension`).
pub fn path_extension(path: &str) -> (r: Option<Vec<char>>)
    ensures
        match r {
            Some(e) => extension(path@) == Some(e@),
            None => extension(path@) is None,
        },
{
    match path_file_name(path) {
        None => None,
        Some(name) => {
            let n = chars_of(name.as_str());
            let len = n.len();
            let mut d = len;
            while d > 0 && n[d - 1] != '.'
                invariant
                    d <= len == n@.len(),
                    last_dot_before(n@, len as int) == last_dot_before(n@, d as int),
                decreases d,
            {
                d = d - 1;
            }
            proof {
                lemma_last_dot_before(n@, len as int);
            }
            // d - 1 is the index of the last dot, or -1
            let dotdot = len == 2 && n[0] == '.' && n[1] == '.';
            proof {
                if len == 2 {
                    if dotdot {
                        assert(n@ =~= seq!['.', '.']);
                    } else {
                        assert(n@ != seq!['.', '.']);
                    }
                } else {
                    assert(n@.len() != 2);
                }
            }
            if dotdot || d <= 1 {
                None
            } else {
                let mut e: Vec<char> = Vec::new();
                let mut k = d;
                while k < len
                    invariant
                        d <= k <= len == n@.len(),
                        e@ == n@.subrange(d as int, k as int),
                    decreases len - k,
                {
                    e.push(n[k]);
                    k = k + 1;
                }
                Some(e)
            }
        },
    }
}

/// Joins a component to a directory path, as `Path::join` does for a plain
/// name: a `\` goes between them unless the path is empty, already ends in a
/// separator, or is a bare drive prefix.
pub open spec fn join(p: Seq<char>, name: Seq<char>) -> Seq<char> {
    if p.len() == 0 || is_sep(p.last()) || (p.len() == 2 && prefix_len(p) == 2) {
        p + name
    } else {
        p + seq!['\\'] + name
    }
}

pub fn path_join(path: &str, name: &str) -> (r: String)
    ensures
        r@ == join(path@, name@),
{
    let p = chars_of(path);
    let n = p.len();
    let plain = n == 0 || is_sep_char(p[n - 1]) || (n == 2 && prefix_len_exec(&p) == 2);
    let mut r = path.to_owned();
    if !plain {
        r.append("\\");
        proof {
            reveal_strlit("\\");
        }
    }
    r.append(name);
    r
}

} // verus!
