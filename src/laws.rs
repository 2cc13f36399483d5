//! Laws relating the naming convention of device nodes to what the node
//! descriptors derive from their paths.
use vstd::prelude::*;
use crate::decimal::{decimal_text, decimal_value, digits_of, lemma_decimal_text};
use crate::node::{capture_prefix, index_of, is_subdev_path, subdev_prefix, IndexError};
use crate::path_text::{file_name_of, has_prefix, seg_start};

verus! {

proof fn lemma_seg_start_after_slash(p: Seq<char>, start: int, k: int)
    requires
        0 < start <= k <= p.len(),
        p[start - 1] == '/',
        forall|i: int| start <= i < k ==> p[i] != '/',
    ensures
        seg_start(p, k) == start,
    decreases k - start,
{
    if k > start {
        lemma_seg_start_after_slash(p, start, k - 1);
    }
}

/// The final component of `dir/f` is `f`, where `f` is a plain name.
pub proof fn lemma_file_name_of_child(dir: Seq<char>, f: Seq<char>)
    requires
        f.len() > 0,
        forall|i: int| 0 <= i < f.len() ==> f[i] != '/',
        f != seq!['.'],
        f != seq!['.', '.'],
    ensures
        file_name_of(dir + seq!['/'] + f) == Some(f),
{
    let p = dir + seq!['/'] + f;
    let start: int = dir.len() as int + 1;
    assert(p[start - 1] == '/');
    assert forall|i: int| start <= i < p.len() implies p[i] != '/' by {
        assert(p[i] == f[i - start]);
    }
    lemma_seg_start_after_slash(p, start, p.len() as int);
    assert(p[p.len() - 1] == f[f.len() - 1]);
    assert(p.subrange(start, p.len() as int) =~= f);
}

proof fn lemma_prefixes()
    ensures
        capture_prefix() =~= seq!['v', 'i', 'd', 'e', 'o'],
        subdev_prefix() =~= seq!['v', '4', 'l', '-', 's', 'u', 'b', 'd', 'e', 'v'],
{
    reveal_strlit("video");
    reveal_strlit("v4l-subdev");
}

/// A capture-device name `video` followed by any text without a separator
/// names a capture device, and its index is the value of all the digits in
/// that text, read in order whatever stands between them.
pub proof fn lemma_capture_index(dir: Seq<char>, s: Seq<char>)
    requires
        forall|i: int| 0 <= i < s.len() ==> s[i] != '/',
        digits_of(s).len() > 0,
        decimal_value(digits_of(s)) <= usize::MAX,
    ensures
        !is_subdev_path(dir + seq!['/'] + capture_prefix() + s),
        index_of(dir + seq!['/'] + capture_prefix() + s) == Ok::<usize, IndexError>(
            decimal_value(digits_of(s)) as usize,
        ),
{
    lemma_prefixes();
    let f = capture_prefix() + s;
    assert forall|i: int| 0 <= i < f.len() implies f[i] != '/' by {
        if i >= 5 {
            assert(f[i] == s[i - 5]);
        }
    }
    assert(f.len() != 1 && f.len() != 2);
    assert(dir + seq!['/'] + f =~= dir + seq!['/'] + capture_prefix() + s);
    lemma_file_name_of_child(dir, f);
    assert(f[1] != subdev_prefix()[1]);
    assert(f.subrange(0, 10) != subdev_prefix() ==> !has_prefix(f, subdev_prefix()));
    assert(f.subrange(0, 5) =~= capture_prefix());
    assert(f.subrange(5, f.len() as int) =~= s);
}

/// The capture-device name `video<n>` has index `n`.
pub proof fn lemma_capture_index_plain(dir: Seq<char>, n: usize)
    ensures
        !is_subdev_path(dir + seq!['/'] + capture_prefix() + decimal_text(n as nat)),
        index_of(dir + seq!['/'] + capture_prefix() + decimal_text(n as nat)) == Ok::<
            usize,
            IndexError,
        >(n),
{
    let t = decimal_text(n as nat);
    lemma_decimal_text(n as nat);
    assert forall|i: int| 0 <= i < t.len() implies t[i] != '/' by {
        assert(crate::decimal::is_digit(t[i]));
    }
    lemma_capture_index(dir, t);
}

/// A sub-device name `v4l-subdev` followed by any text without a separator
/// names a sub-device, and its index is the value of all the digits in that
/// text, read in order.
pub proof fn lemma_subdev_index(dir: Seq<char>, s: Seq<char>)
    requires
        forall|i: int| 0 <= i < s.len() ==> s[i] != '/',
        digits_of(s).len() > 0,
        decimal_value(digits_of(s)) <= usize::MAX,
    ensures
        is_subdev_path(dir + seq!['/'] + subdev_prefix() + s),
        index_of(dir + seq!['/'] + subdev_prefix() + s) == Ok::<usize, IndexError>(
            decimal_value(digits_of(s)) as usize,
        ),
{
    lemma_prefixes();
    let f = subdev_prefix() + s;
    assert forall|i: int| 0 <= i < f.len() implies f[i] != '/' by {
        if i >= 10 {
            assert(f[i] == s[i - 10]);
        }
    }
    assert(f.len() != 1 && f.len() != 2);
    assert(dir + seq!['/'] + f =~= dir + seq!['/'] + subdev_prefix() + s);
    lemma_file_name_of_child(dir, f);
    assert(f.subrange(0, 10) =~= subdev_prefix());
    assert(f.subrange(10, f.len() as int) =~= s);
}

/// The sub-device name `v4l-subdev<n>` names a sub-device of index `n`.
pub proof fn lemma_subdev_index_plain(dir: Seq<char>, n: usize)
    ensures
        is_subdev_path(dir + seq!['/'] + subdev_prefix() + decimal_text(n as nat)),
        index_of(dir + seq!['/'] + subdev_prefix() + decimal_text(n as nat)) == Ok::<
            usize,
            IndexError,
        >(n),
{
    let t = decimal_text(n as nat);
    lemma_decimal_text(n as nat);
    assert forall|i: int| 0 <= i < t.len() implies t[i] != '/' by {
        assert(crate::decimal::is_digit(t[i]));
    }
    lemma_subdev_index(dir, t);
}

/// A path without a final component is no sub-device, and has no index.
pub proof fn lemma_no_file_name(path: Seq<char>)
    requires
        file_name_of(path) is None,
    ensures
        !is_subdev_path(path),
        index_of(path) == Err::<usize, IndexError>(IndexError::NoFileName),
{
}

/// A path whose final component has neither prefix has no index: asking
/// for it gives the missing-prefix error, never a number.
pub proof fn lemma_unrecognised_name(path: Seq<char>)
    requires
        file_name_of(path) is Some,
        !has_prefix(file_name_of(path)->0, capture_prefix()),
        !has_prefix(file_name_of(path)->0, subdev_prefix()),
    ensures
        index_of(path) == Err::<usize, IndexError>(IndexError::MissingPrefix),
{
}

} // verus!
