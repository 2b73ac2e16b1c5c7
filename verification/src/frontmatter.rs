//! Splitting a post file into its frontmatter block and its body.
//!
//! A file carries frontmatter when its first line is a `---` marker and a
//! later line is again a `---` marker. The block is everything between the
//! two marker lines; the body is everything after the closing marker's
//! line. Marker lines may carry trailing spaces, tabs or a carriage
//! return. A file without both markers is not a post.

use vstd::prelude::*;
use vstd::string::StrSliceExecFns;

verus! {

/// Whitespace that may trail a marker line.
pub open spec fn is_ws(c: char) -> bool {
    c == ' ' || c == '\t' || c == '\r'
}

/// The index of the first newline at or after `i`, or the length of `s`
/// where no newline follows.
pub open spec fn line_end(s: Seq<char>, i: int) -> int
    decreases s.len() - i,
    when 0 <= i <= s.len()
{
    if i >= s.len() {
        s.len() as int
    } else if s[i] == '\n' {
        i
    } else {
        line_end(s, i + 1)
    }
}

/// Bounds of `line_end`, and that the line it delimits holds no newline.
pub proof fn lemma_line_end(s: Seq<char>, i: int)
    requires
        0 <= i <= s.len(),
    ensures
        i <= line_end(s, i) <= s.len(),
        forall|k: int| i <= k < line_end(s, i) ==> s[k] != '\n',
        line_end(s, i) < s.len() ==> s[line_end(s, i)] == '\n',
    decreases s.len() - i,
{
    if i < s.len() && s[i] != '\n' {
        lemma_line_end(s, i + 1);
    }
}

/// `s` without its trailing marker-line whitespace.
pub open spec fn trim_end_ws(s: Seq<char>) -> Seq<char>
    decreases s.len(),
{
    if s.len() > 0 && is_ws(s.last()) {
        trim_end_ws(s.drop_last())
    } else {
        s
    }
}

/// Whether `line` is a frontmatter marker: `---` up to trailing whitespace.
pub open spec fn is_marker(line: Seq<char>) -> bool {
    trim_end_ws(line) == "---"@
}

/// The start of the first marker line at or after the line start `i`.
pub open spec fn find_close(s: Seq<char>, i: int) -> Option<int>
    decreases s.len() - i,
    when 0 <= i <= s.len()
    via find_close_decreases
{
    if is_marker(s.subrange(i, line_end(s, i))) {
        Some(i)
    } else if line_end(s, i) >= s.len() {
        None
    } else {
        find_close(s, line_end(s, i) + 1)
    }
}

#[via_fn]
proof fn find_close_decreases(s: Seq<char>, i: int) {
    lemma_line_end(s, i);
}

/// The frontmatter block and the body of `s`, where `s` has both marker
/// lines; `None` otherwise.
pub open spec fn spec_split_frontmatter(s: Seq<char>) -> Option<(Seq<char>, Seq<char>)> {
    let e0 = line_end(s, 0);
    if e0 >= s.len() || !is_marker(s.subrange(0, e0)) {
        None
    } else {
        match find_close(s, e0 + 1) {
            None => None,
            Some(c) => {
                let ce = line_end(s, c);
                let block = s.subrange(e0 + 1, c);
                let body = if ce >= s.len() {
                    Seq::<char>::empty()
                } else {
                    s.subrange(ce + 1, s.len() as int)
                };
                Some((block, body))
            },
        }
    }
}

/// Finds the end of the line that starts at `i`.
fn line_end_from(s: &str, i: usize, n: usize) -> (e: usize)
    requires
        i <= n,
        n == s@.len(),
    ensures
        e == line_end(s@, i as int),
        i <= e <= n,
{
    proof {
        lemma_line_end(s@, i as int);
    }
    let mut j: usize = i;
    while j < n
        invariant
            i <= j <= n,
            n == s@.len(),
            line_end(s@, i as int) == line_end(s@, j as int),
        decreases n - j,
    {
        let c = s.get_char(j);
        if c == '\n' {
            return j;
        }
        j = j + 1;
    }
    j
}

/// Decides whether the line `s[i..e]` is a `---` marker.
fn is_marker_line(s: &str, i: usize, e: usize) -> (b: bool)
    requires
        i <= e <= s@.len(),
    ensures
        b == is_marker(s@.subrange(i as int, e as int)),
{
    let mut t: usize = e;
    while t > i
        invariant
            i <= t <= e <= s@.len(),
            trim_end_ws(s@.subrange(i as int, e as int)) == trim_end_ws(
                s@.subrange(i as int, t as int),
            ),
        ensures
            i <= t <= e,
            trim_end_ws(s@.subrange(i as int, e as int)) == trim_end_ws(
                s@.subrange(i as int, t as int),
            ),
            t == i || !is_ws(s@[t - 1]),
        decreases t,
    {
        let c = s.get_char(t - 1);
        if c == ' ' || c == '\t' || c == '\r' {
            proof {
                assert(s@.subrange(i as int, t as int).drop_last() =~= s@.subrange(
                    i as int,
                    t - 1,
                ));
            }
            t = t - 1;
        } else {
            break;
        }
    }
    proof {
        if t == i {
            assert(s@.subrange(i as int, t as int) =~= Seq::<char>::empty());
            reveal_strlit("---");
        }
        assert(trim_end_ws(s@.subrange(i as int, t as int)) == s@.subrange(i as int, t as int));
    }
    if t - i != 3 {
        proof {
            reveal_strlit("---");
        }
        return false;
    }
    let c0 = s.get_char(i);
    let c1 = s.get_char(i + 1);
    let c2 = s.get_char(i + 2);
    proof {
        reveal_strlit("---");
    }
    if c0 == '-' && c1 == '-' && c2 == '-' {
        proof {
            assert(s@.subrange(i as int, t as int) =~= "---"@);
        }
        true
    } else {
        proof {
            assert(s@.subrange(i as int, t as int)[0] == c0);
            assert(s@.subrange(i as int, t as int)[1] == c1);
            assert(s@.subrange(i as int, t as int)[2] == c2);
            assert(s@.subrange(i as int, t as int) != "---"@);
        }
        false
    }
}

/// Splits `s` into its frontmatter block and its body, or returns `None`
/// where one of the two marker lines is missing.
pub fn split_frontmatter<'a>(s: &'a str) -> (r: Option<(&'a str, &'a str)>)
    ensures
        match r {
            Some(pair) => spec_split_frontmatter(s@) == Some((pair.0@, pair.1@)),
            None => spec_split_frontmatter(s@) is None,
        },
{
    let n = s.unicode_len();
    let e0 = line_end_from(s, 0, n);
    if e0 >= n {
        return None;
    }
    if !is_marker_line(s, 0, e0) {
        return None;
    }
    let mut i: usize = e0 + 1;
    loop
        invariant
            e0 + 1 <= i <= n,
            n == s@.len(),
            e0 == line_end(s@, 0),
            e0 < n,
            is_marker(s@.subrange(0, e0 as int)),
            find_close(s@, e0 + 1) == find_close(s@, i as int),
        decreases n - i,
    {
        let e = line_end_from(s, i, n);
        if is_marker_line(s, i, e) {
            proof {
                assert(find_close(s@, i as int) == Some(i as int));
            }
            let block = s.substring_char(e0 + 1, i);
            if e >= n {
                let body = s.substring_char(n, n);
                proof {
                    assert(body@ =~= Seq::<char>::empty());
                }
                return Some((block, body));
            }
            let body = s.substring_char(e + 1, n);
            return Some((block, body));
        }
        if e >= n {
            proof {
                assert(find_close(s@, i as int) is None);
            }
            return None;
        }
        i = e + 1;
    }
}

} // verus!
