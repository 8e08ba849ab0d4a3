//! Decoding stored byte records into tagged trie nodes.
//!
//! A record is one node: a leading tag byte selects Leaf, Branch or
//! Extension, and the body follows the store's node encoding.  A leaf embeds
//! a domain key (tag byte plus fixed-width payload) and a stored value, of
//! which only the leading tag byte is examined: the value's body is not
//! validated further and extends to the end of the record.  Trailing bytes
//! beyond a Branch or Extension node's own encoding are ignored, not
//! validated.  Decoding is pure: a buffer yields exactly one node or fails.

use vstd::prelude::*;
use crate::digest::{Digest, copy_range};
use crate::tags::{
    KeyTag, ValueTag, key_tag_of_byte, value_tag_of_byte, key_payload_len,
    spec_key_tag_of_byte, spec_value_tag_of_byte, spec_key_payload_len,
};

verus! {

/// Mathematical image of a decoded trie node.
pub ghost enum NodeModel {
    /// Terminal node: one domain key and its stored value.
    Leaf { key_tag: KeyTag, key_bytes: Seq<u8>, value_tag: ValueTag },
    /// Path-compressing node: shared prefix and one child reference.
    Extension { affix: Seq<u8>, child: Seq<u8> },
    /// Fan-out node: child references listed in ascending index order.
    Branch { children: Seq<(u8, Seq<u8>)> },
}

/// One indexed child reference of a Branch node.
pub struct BranchChild {
    pub index: u8,
    pub digest: Digest,
}

impl View for BranchChild {
    type V = (u8, Seq<u8>);

    open spec fn view(&self) -> (u8, Seq<u8>) {
        (self.index, self.digest@)
    }
}

/// A decoded trie node.
pub enum TrieNode {
    /// Terminal node: the embedded key (tag plus payload, as stored) and the
    /// categories of key and value.
    Leaf { key_tag: KeyTag, key_bytes: Vec<u8>, value_tag: ValueTag },
    /// Path-compressing node.
    Extension { affix: Vec<u8>, child: Digest },
    /// Fan-out node, children in ascending index order.
    Branch { children: Vec<BranchChild> },
}

/// The views of a list of branch children.
pub open spec fn children_views(cs: Seq<BranchChild>) -> Seq<(u8, Seq<u8>)> {
    cs.map_values(|c: BranchChild| c@)
}

impl View for TrieNode {
    type V = NodeModel;

    open spec fn view(&self) -> NodeModel {
        match self {
            TrieNode::Leaf { key_tag, key_bytes, value_tag } => NodeModel::Leaf {
                key_tag: *key_tag,
                key_bytes: key_bytes@,
                value_tag: *value_tag,
            },
            TrieNode::Extension { affix, child } => NodeModel::Extension {
                affix: affix@,
                child: child@,
            },
            TrieNode::Branch { children } => NodeModel::Branch {
                children: children_views(children@),
            },
        }
    }
}

impl TrieNode {
    /// Every child reference is a well-formed digest.
    pub open spec fn wf(&self) -> bool {
        match self {
            TrieNode::Leaf { .. } => true,
            TrieNode::Extension { child, .. } => child.is_valid(),
            TrieNode::Branch { children } => forall|i: int|
                0 <= i < children@.len() ==> (#[trigger] children@[i]).digest.is_valid(),
        }
    }
}

/// The little-endian 32-bit value held in a sequence's first four bytes.
pub open spec fn le32(b: Seq<u8>) -> int
    recommends
        b.len() >= 4,
{
    b[0] + 256 * (b[1] + 256 * (b[2] + 256 * b[3]))
}

/// Decodes a leaf body (everything after the node tag byte).
pub open spec fn spec_decode_leaf(rest: Seq<u8>) -> Option<NodeModel> {
    if rest.len() < 1 {
        None
    } else {
        match spec_key_tag_of_byte(rest[0]) {
            None => None,
            Some(kt) => {
                let pl = spec_key_payload_len(kt) as int;
                if rest.len() < 1 + pl + 1 {
                    None
                } else {
                    match spec_value_tag_of_byte(rest[1 + pl]) {
                        None => None,
                        Some(vt) => Some(
                            NodeModel::Leaf {
                                key_tag: kt,
                                key_bytes: rest.take(1 + pl),
                                value_tag: vt,
                            },
                        ),
                    }
                }
            },
        }
    }
}

/// Decodes an extension body: length-prefixed affix, then a tagged pointer.
pub open spec fn spec_decode_extension(rest: Seq<u8>) -> Option<NodeModel> {
    if rest.len() < 4 {
        None
    } else {
        let n = le32(rest);
        if rest.len() < 4 + n + 33 {
            None
        } else if rest[4 + n] == 0 || rest[4 + n] == 1 {
            Some(
                NodeModel::Extension {
                    affix: rest.subrange(4, 4 + n),
                    child: rest.subrange(4 + n + 1, 4 + n + 33),
                },
            )
        } else {
            None
        }
    }
}

/// Decodes the children of a branch body from entry `idx` on: each of the
/// 256 slots is either empty or a tagged pointer to a child digest.
pub open spec fn spec_branch_children(rest: Seq<u8>, idx: int) -> Option<Seq<(u8, Seq<u8>)>>
    decreases 256 - idx,
{
    if idx >= 256 {
        Some(Seq::empty())
    } else if rest.len() < 1 {
        None
    } else if rest[0] == 0 {
        spec_branch_children(rest.drop_first(), idx + 1)
    } else if rest[0] == 1 {
        if rest.len() < 34 {
            None
        } else if rest[1] == 0 || rest[1] == 1 {
            match spec_branch_children(rest.skip(34), idx + 1) {
                None => None,
                Some(cs) => Some(seq![((idx as u8), rest.subrange(2, 34))] + cs),
            }
        } else {
            None
        }
    } else {
        None
    }
}

/// Decodes one stored record into a trie node, or fails.
pub open spec fn spec_decode(bytes: Seq<u8>) -> Option<NodeModel> {
    if bytes.len() < 1 {
        None
    } else if bytes[0] == 0 {
        spec_decode_leaf(bytes.drop_first())
    } else if bytes[0] == 1 {
        match spec_branch_children(bytes.drop_first(), 0) {
            None => None,
            Some(cs) => Some(NodeModel::Branch { children: cs }),
        }
    } else if bytes[0] == 2 {
        spec_decode_extension(bytes.drop_first())
    } else {
        None
    }
}

/// Decodes one stored record into a trie node; fails exactly where the
/// record is not a well-formed node encoding.
pub fn decode_node(bytes: &Vec<u8>) -> (r: Option<TrieNode>)
    ensures
        match r {
            Some(n) => spec_decode(bytes@) == Some(n@) && n.wf(),
            None => spec_decode(bytes@) is None,
        },
{
    if bytes.len() < 1 {
        return None;
    }
    let tag = bytes[0];
    if tag == 0 {
        decode_leaf(bytes)
    } else if tag == 1 {
        match parse_children(bytes, 1, 0) {
            None => {
                assert(bytes@.drop_first() =~= bytes@.skip(1));
                None
            },
            Some(children) => {
                assert(bytes@.drop_first() =~= bytes@.skip(1));
                Some(TrieNode::Branch { children })
            },
        }
    } else if tag == 2 {
        decode_extension(bytes)
    } else {
        None
    }
}

/// Decodes a record already known to carry the leaf tag.
fn decode_leaf(bytes: &Vec<u8>) -> (r: Option<TrieNode>)
    requires
        bytes@.len() >= 1,
        bytes@[0] == 0,
    ensures
        match r {
            Some(n) => spec_decode(bytes@) == Some(n@) && n.wf(),
            None => spec_decode(bytes@) is None,
        },
{
    let ghost rest = bytes@.drop_first();
    if bytes.len() < 2 {
        return None;
    }
    assert(rest[0] == bytes@[1]);
    let kt = match key_tag_of_byte(bytes[1]) {
        None => {
            return None;
        },
        Some(kt) => kt,
    };
    let pl = key_payload_len(kt);
    if bytes.len() < 3 + pl {
        assert(rest.len() < 1 + spec_key_payload_len(kt) + 1);
        return None;
    }
    assert(rest[1 + pl] == bytes@[2 + pl]);
    let vt = match value_tag_of_byte(bytes[2 + pl]) {
        None => {
            return None;
        },
        Some(vt) => vt,
    };
    let key_bytes = copy_range(bytes, 1, 2 + pl);
    assert(key_bytes@ =~= rest.take(1 + pl as int));
    Some(TrieNode::Leaf { key_tag: kt, key_bytes, value_tag: vt })
}

/// Decodes a record already known to carry the extension tag.
fn decode_extension(bytes: &Vec<u8>) -> (r: Option<TrieNode>)
    requires
        bytes@.len() >= 1,
        bytes@[0] == 2,
    ensures
        match r {
            Some(n) => spec_decode(bytes@) == Some(n@) && n.wf(),
            None => spec_decode(bytes@) is None,
        },
{
    let ghost rest = bytes@.drop_first();
    if bytes.len() < 5 {
        return None;
    }
    assert(rest[0] == bytes@[1] && rest[1] == bytes@[2] && rest[2] == bytes@[3] && rest[3]
        == bytes@[4]);
    let n: usize = bytes[1] as usize + 256 * (bytes[2] as usize + 256 * (bytes[3] as usize + 256
        * (bytes[4] as usize)));
    assert(n == le32(rest));
    if bytes.len() < 38 || bytes.len() - 38 < n {
        assert(rest.len() < 4 + le32(rest) + 33);
        return None;
    }
    assert(rest.len() >= 4 + le32(rest) + 33);
    assert(rest[4 + n] == bytes@[5 + n]);
    let ptag = bytes[5 + n];
    if ptag == 0 || ptag == 1 {
        let affix = copy_range(bytes, 5, 5 + n);
        assert(affix@ =~= rest.subrange(4, 4 + n as int));
        let child_bytes = copy_range(bytes, 6 + n, 38 + n);
        assert(child_bytes@ =~= rest.subrange(4 + n as int + 1, 4 + n as int + 33));
        let child = Digest::from_exact(child_bytes);
        Some(TrieNode::Extension { affix, child })
    } else {
        None
    }
}

/// Decodes branch slots from `idx` on, starting at byte `pos` of the record.
fn parse_children(bytes: &Vec<u8>, pos: usize, idx: usize) -> (r: Option<Vec<BranchChild>>)
    requires
        pos <= bytes@.len(),
        idx <= 256,
    ensures
        match r {
            Some(cs) => {
                &&& spec_branch_children(bytes@.skip(pos as int), idx as int) == Some(
                    children_views(cs@),
                )
                &&& forall|i: int| 0 <= i < cs@.len() ==> (#[trigger] cs@[i]).digest.is_valid()
            },
            None => spec_branch_children(bytes@.skip(pos as int), idx as int) is None,
        },
    decreases 256 - idx,
{
    let ghost rest = bytes@.skip(pos as int);
    if idx == 256 {
        let cs: Vec<BranchChild> = Vec::new();
        assert(children_views(cs@) =~= Seq::<(u8, Seq<u8>)>::empty());
        return Some(cs);
    }
    if pos >= bytes.len() {
        return None;
    }
    assert(rest[0] == bytes@[pos as int]);
    let e = bytes[pos];
    if e == 0 {
        assert(rest.drop_first() =~= bytes@.skip(pos + 1));
        parse_children(bytes, pos + 1, idx + 1)
    } else if e == 1 {
        if bytes.len() - pos < 34 {
            return None;
        }
        assert(rest[1] == bytes@[pos + 1]);
        let pt = bytes[pos + 1];
        if pt == 0 || pt == 1 {
            assert(rest.skip(34) =~= bytes@.skip(pos + 34));
            match parse_children(bytes, pos + 34, idx + 1) {
                None => None,
                Some(mut cs) => {
                    let ghost tail_views = children_views(cs@);
                    let child_bytes = copy_range(bytes, pos + 2, pos + 34);
                    assert(child_bytes@ =~= rest.subrange(2, 34));
                    let digest = Digest::from_exact(child_bytes);
                    let head = BranchChild { index: idx as u8, digest };
                    cs.insert(0, head);
                    assert(children_views(cs@) =~= seq![((idx as u8), rest.subrange(2, 34))]
                        + tail_views);
                    Some(cs)
                },
            }
        } else {
            None
        }
    } else {
        None
    }
}

} // verus!
