//! Choosing the device nodes among the entries of a device directory.
use vstd::prelude::*;
use vstd::string::*;
use crate::node::{capture_prefix, subdev_prefix, Node};
use crate::path_text::{has_prefix, starts_with};

verus! {

/// An entry named `name` is a device node: its name begins with the
/// capture-device or the sub-device prefix.
pub open spec fn is_device_name(name: Seq<char>) -> bool {
    has_prefix(name, capture_prefix()) || has_prefix(name, subdev_prefix())
}

/// Path of the entry `name` of directory `root`; a separator is put between
/// them unless `root` is empty or already ends with one.
pub open spec fn join_path(root: Seq<char>, name: Seq<char>) -> Seq<char> {
    if root.len() == 0 || root.last() == '/' {
        root + name
    } else {
        root + seq!['/'] + name
    }
}

/// Paths of the device nodes among the entries `names` of `root`, in the
/// order of the entries.
pub open spec fn device_paths(root: Seq<char>, names: Seq<Seq<char>>) -> Seq<Seq<char>>
    decreases names.len(),
{
    if names.len() == 0 {
        seq![]
    } else if is_device_name(names.last()) {
        device_paths(root, names.drop_last()).push(join_path(root, names.last()))
    } else {
        device_paths(root, names.drop_last())
    }
}

/// Views of a list of strings.
pub open spec fn text_views(names: Seq<String>) -> Seq<Seq<char>> {
    names.map_values(|s: String| s@)
}

/// Paths of a list of nodes.
pub open spec fn node_paths(nodes: Seq<Node>) -> Seq<Seq<char>> {
    nodes.map_values(|n: Node| n@)
}

/// Whether the entry `name` is a device node.
pub fn is_device_entry(name: &str) -> (r: bool)
    ensures
        r == is_device_name(name@),
{
    starts_with(name, "video") || starts_with(name, "v4l-subdev")
}

/// Path of the entry `name` of directory `root`.
pub fn join_entry(root: &str, name: &str) -> (r: String)
    ensures
        r@ == join_path(root@, name@),
{
    let mut p = String::from_str(root);
    let n = root.unicode_len();
    if n > 0 && root.get_char(n - 1) != '/' {
        p.append("/");
        proof {
            reveal_strlit("/");
        }
        assert(p@ =~= root@ + seq!['/']);
    }
    p.append(name);
    p
}

/// Descriptors for the device nodes among the entries `names` of the
/// directory `root`, in the order of the entries; other entries are left out.
pub fn select_devices(root: &str, names: &Vec<String>) -> (r: Vec<Node>)
    ensures
        node_paths(r@) == device_paths(root@, text_views(names@)),
{
    let mut out: Vec<Node> = Vec::new();
    let mut i: usize = 0;
    while i < names.len()
        invariant
            i <= names@.len(),
            node_paths(out@) == device_paths(root@, text_views(names@.subrange(0, i as int))),
        decreases names@.len() - i,
    {
        let ghost before = text_views(names@.subrange(0, i as int));
        let ghost after = text_views(names@.subrange(0, i + 1));
        assert(after.drop_last() =~= before);
        let name = names[i].as_str();
        if is_device_entry(name) {
            let p = join_entry(root, name);
            let node = Node::new(p.as_str());
            let ghost old_out = out@;
            out.push(node);
            assert(node_paths(out@) =~= node_paths(old_out).push(join_path(root@, name@)));
        }
        i = i + 1;
    }
    assert(names@.subrange(0, names@.len() as int) =~= names@);
    out
}

} // verus!
