//! Device node descriptors: kind, index and metadata path, all derived from
//! the node's path.
use vstd::prelude::*;
use vstd::string::*;
use crate::decimal::{decimal_text, digit_value, decimal_value, digits_of, lemma_value_grows, push_decimal};
use crate::path_text::{file_name, file_name_of, has_prefix, starts_with};

verus! {

/// File-name prefix of capture devices.
pub open spec fn capture_prefix() -> Seq<char> {
    "video"@
}

/// File-name prefix of sub-devices.
pub open spec fn subdev_prefix() -> Seq<char> {
    "v4l-subdev"@
}

/// Metadata root of capture devices; the index and `/name` follow it.
pub open spec fn capture_meta_root() -> Seq<char> {
    "/sys/class/video4linux/video"@
}

/// Metadata root of sub-devices; the index and `/name` follow it.
pub open spec fn subdev_meta_root() -> Seq<char> {
    "/sys/class/video4linux/v4l-subdev"@
}

/// Why the index of a node cannot be read from its path.
#[derive(Clone, Copy, Debug, PartialEq, Eq, Structural)]
pub enum IndexError {
    /// The path has no final component.
    NoFileName,
    /// The final component lacks the prefix of the node's kind.
    MissingPrefix,
    /// No digit follows the prefix.
    NoDigits,
    /// The digits name a number that does not fit in `usize`.
    Overflow,
}

/// The final component of `path` begins with the sub-device prefix.
pub open spec fn is_subdev_path(path: Seq<char>) -> bool {
    match file_name_of(path) {
        Some(f) => has_prefix(f, subdev_prefix()),
        None => false,
    }
}

/// Prefix stripped from the final component of `path` before its digits are read.
pub open spec fn kind_prefix(path: Seq<char>) -> Seq<char> {
    if is_subdev_path(path) {
        subdev_prefix()
    } else {
        capture_prefix()
    }
}

/// Index of the node at `path`: every digit after the kind's prefix, in
/// order, read in base ten.
pub open spec fn index_of(path: Seq<char>) -> Result<usize, IndexError> {
    match file_name_of(path) {
        None => Err(IndexError::NoFileName),
        Some(f) => {
            let pre = kind_prefix(path);
            if !has_prefix(f, pre) {
                Err(IndexError::MissingPrefix)
            } else {
                let d = digits_of(f.subrange(pre.len() as int, f.len() as int));
                if d.len() == 0 {
                    Err(IndexError::NoDigits)
                } else if decimal_value(d) > usize::MAX {
                    Err(IndexError::Overflow)
                } else {
                    Ok(decimal_value(d) as usize)
                }
            }
        }
    }
}

/// Metadata root for the kind of node at `path`.
pub open spec fn meta_root(path: Seq<char>) -> Seq<char> {
    if is_subdev_path(path) {
        subdev_meta_root()
    } else {
        capture_meta_root()
    }
}

/// Path of the metadata file that holds the display name of the node at `path`.
pub open spec fn name_path_of(path: Seq<char>) -> Result<Seq<char>, IndexError> {
    match index_of(path) {
        Ok(n) => Ok(meta_root(path) + decimal_text(n as nat) + "/name"@),
        Err(e) => Err(e),
    }
}

/// A video4linux device node, known by its path.
pub struct Node {
    path: String,
}

impl View for Node {
    type V = Seq<char>;

    closed spec fn view(&self) -> Seq<char> {
        self.path@
    }
}

impl Node {
    /// Descriptor for the node at `path`; the path is kept as given.
    pub fn new(path: &str) -> (r: Node)
        ensures
            r@ == path@,
    {
        Node { path: String::from_str(path) }
    }

    /// Path of the node.
    pub fn path(&self) -> (r: &str)
        ensures
            r@ == self@,
    {
        self.path.as_str()
    }

    /// Whether the node is a sub-device: its final component begins with
    /// `v4l-subdev`. A path without a final component is no sub-device.
    pub fn is_v4l_subdev(&self) -> (r: bool)
        ensures
            r == is_subdev_path(self@),
    {
        match file_name(self.path.as_str()) {
            Some(f) => starts_with(f.as_str(), "v4l-subdev"),
            None => false,
        }
    }

    /// Index of the node: the digits that follow the kind's prefix in the
    /// final component, read in base ten. A path that does not follow the
    /// naming convention gives the reason as an error.
    pub fn index(&self) -> (r: Result<usize, IndexError>)
        ensures
            r == index_of(self@),
    {
        let fname = match file_name(self.path.as_str()) {
            Some(f) => f,
            None => {
                return Err(IndexError::NoFileName);
            },
        };
        let pre = if self.is_v4l_subdev() {
            "v4l-subdev"
        } else {
            "video"
        };
        if !starts_with(fname.as_str(), pre) {
            return Err(IndexError::MissingPrefix);
        }
        let plen = pre.unicode_len();
        let flen = fname.as_str().unicode_len();
        let rest = fname.as_str().substring_char(plen, flen);
        let rlen = rest.unicode_len();
        let mut acc: usize = 0;
        let mut seen = false;
        let mut i: usize = 0;
        proof {
            assert(rest@.subrange(0, 0) =~= Seq::<char>::empty());
        }
        while i < rlen
            invariant
                file_name_of(self@) == Some(fname@),
                kind_prefix(self@) == pre@,
                has_prefix(fname@, pre@),
                plen == pre@.len(),
                flen == fname@.len(),
                rest@ == fname@.subrange(plen as int, flen as int),
                rlen == rest@.len(),
                i <= rlen,
                acc == decimal_value(digits_of(rest@.subrange(0, i as int))),
                seen == (digits_of(rest@.subrange(0, i as int)).len() > 0),
            decreases rlen - i,
        {
            let c = rest.get_char(i);
            let ghost before = rest@.subrange(0, i as int);
            let ghost after = rest@.subrange(0, i + 1);
            assert(after.drop_last() =~= before);
            if '0' <= c && c <= '9' {
                let d = (c as u32 - '0' as u32) as usize;
                assert(digits_of(after).drop_last() =~= digits_of(before));
                let next = match acc.checked_mul(10) {
                    Some(m) => m.checked_add(d),
                    None => None,
                };
                match next {
                    Some(v) => {
                        acc = v;
                    },
                    None => {
                        proof {
                            assert(digit_value(c) == d);
                            assert(decimal_value(digits_of(after)) == acc * 10 + d);
                            assert(acc * 10 + d > usize::MAX) by (nonlinear_arith)
                                requires
                                    acc * 10 > usize::MAX || acc * 10 + d > usize::MAX,
                            ;
                            lemma_value_grows(rest@, i + 1, rlen as int);
                            assert(rest@.subrange(0, rlen as int) =~= rest@);
                            assert(decimal_value(digits_of(rest@)) > usize::MAX);
                            assert(digits_of(rest@).len() > 0);
                        }
                        return Err(IndexError::Overflow);
                    },
                }
                seen = true;
            }
            i = i + 1;
        }
        assert(rest@.subrange(0, rlen as int) =~= rest@);
        if !seen {
            return Err(IndexError::NoDigits);
        }
        Ok(acc)
    }

    /// Path of the metadata file that holds the node's display name: the
    /// metadata root of its kind, its index, then `/name`.
    pub fn name_path(&self) -> (r: Result<String, IndexError>)
        ensures
            match r {
                Ok(p) => name_path_of(self@) == Ok::<Seq<char>, IndexError>(p@),
                Err(e) => name_path_of(self@) == Err::<Seq<char>, IndexError>(e),
            },
    {
        let n = match self.index() {
            Ok(n) => n,
            Err(e) => {
                return Err(e);
            },
        };
        let mut p = if self.is_v4l_subdev() {
            String::from_str("/sys/class/video4linux/v4l-subdev")
        } else {
            String::from_str("/sys/class/video4linux/video")
        };
        push_decimal(&mut p, n);
        p.append("/name");
        Ok(p)
    }
}

} // verus!
