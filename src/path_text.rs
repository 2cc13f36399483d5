//! Text-level view of filesystem paths: the final component, prefix tests
//! and joining a directory with an entry name.
use vstd::prelude::*;
use vstd::string::*;

verus! {

/// Start of the segment that ends just before position `end` of `p`:
/// the position after the nearest `/` before `end`, or 0.
pub open spec fn seg_start(p: Seq<char>, end: int) -> int
    decreases end,
{
    if end <= 0 {
        0
    } else if p[end - 1] == '/' {
        end
    } else {
        seg_start(p, end - 1)
    }
}

/// Final component of `p.subrange(0, end)`: trailing separators and `.`
/// components are skipped, and a final `..` or no component at all gives `None`.
pub open spec fn file_name_upto(p: Seq<char>, end: int) -> Option<Seq<char>>
    decreases end,
{
    if end <= 0 {
        None
    } else if p[end - 1] == '/' {
        file_name_upto(p, end - 1)
    } else {
        let s = p.subrange(seg_start(p, end), end);
        if s == seq!['.'] {
            file_name_upto(p, end - 1)
        } else if s == seq!['.', '.'] {
            None
        } else {
            Some(s)
        }
    }
}

/// Final component of the path `p`, as `Path::file_name` gives it.
pub open spec fn file_name_of(p: Seq<char>) -> Option<Seq<char>> {
    file_name_upto(p, p.len() as int)
}

/// `pre` is a prefix of `s`.
pub open spec fn has_prefix(s: Seq<char>, pre: Seq<char>) -> bool {
    pre.len() <= s.len() && s.subrange(0, pre.len() as int) == pre
}

proof fn lemma_seg_start_bounds(p: Seq<char>, end: int)
    requires
        0 <= end <= p.len(),
    ensures
        0 <= seg_start(p, end) <= end,
        forall|i: int| seg_start(p, end) <= i < end ==> p[i] != '/',
        seg_start(p, end) == 0 || p[seg_start(p, end) - 1] == '/',
    decreases end,
{
    if end > 0 && p[end - 1] != '/' {
        lemma_seg_start_bounds(p, end - 1);
    }
}

/// Final component of `path`, or `None` where the path has none.
pub fn file_name(path: &str) -> (r: Option<String>)
    ensures
        match r {
            Some(s) => file_name_of(path@) == Some(s@),
            None => file_name_of(path@) is None,
        },
{
    let n = path.unicode_len();
    let mut end: usize = n;
    loop
        invariant
            n == path@.len(),
            end <= n,
            file_name_upto(path@, end as int) == file_name_of(path@),
        decreases end,
    {
        if end == 0 {
            return None;
        }
        let c = path.get_char(end - 1);
        if c == '/' {
            end = end - 1;
        } else {
            let mut k: usize = end - 1;
            while k > 0 && path.get_char(k - 1) != '/'
                invariant
                    n == path@.len(),
                    k < end <= n,
                    path@[end - 1] != '/',
                    seg_start(path@, k as int) == seg_start(path@, end as int),
                decreases k,
            {
                k = k - 1;
            }
            proof {
                lemma_seg_start_bounds(path@, end as int);
                assert(seg_start(path@, k as int) == k);
            }
            let seg = path.substring_char(k, end);
            let ghost s = path@.subrange(k as int, end as int);
            if end - k == 1 && c == '.' {
                assert(s =~= seq!['.']);
                end = end - 1;
            } else if end - k == 2 && c == '.' && path.get_char(k) == '.' {
                assert(s =~= seq!['.', '.']);
                return None;
            } else {
                assert(s != seq!['.']) by {
                    if s.len() == 1 {
                        assert(s[0] == c);
                    }
                }
                assert(s != seq!['.', '.']) by {
                    if s.len() == 2 {
                        assert(s[1] == c);
                        assert(s[0] == path@[k as int]);
                    }
                }
                return Some(String::from_str(seg));
            }
        }
    }
}

/// Whether `s` begins with `pre`.
pub fn starts_with(s: &str, pre: &str) -> (r: bool)
    ensures
        r == has_prefix(s@, pre@),
{
    let n = s.unicode_len();
    let m = pre.unicode_len();
    if m > n {
        return false;
    }
    let mut i: usize = 0;
    while i < m
        invariant
            n == s@.len(),
            m == pre@.len(),
            m <= n,
            i <= m,
            forall|j: int| 0 <= j < i ==> s@[j] == pre@[j],
        decreases m - i,
    {
        if s.get_char(i) != pre.get_char(i) {
            assert(s@.subrange(0, m as int)[i as int] != pre@[i as int]);
            return false;
        }
        i = i + 1;
    }
    assert(s@.subrange(0, m as int) =~= pre@);
    true
}

} // verus!
