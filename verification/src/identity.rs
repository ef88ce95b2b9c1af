//! Which nodes keep an identity transform, so that a scale of one still establishes a containing
//! block and a stacking context.

use vstd::prelude::*;

use crate::table::same_text;

verus! {

/// What the cascade left of a node's scale, in pre-order: its parent stands before it.
pub struct ScaleNode {
    pub parent: Option<usize>,
    /// State of an important scale declaration; it goes first.
    pub important: Option<String>,
    /// State of an ordinary scale declaration.
    pub ordinary: Option<String>,
    /// Whether the node's style already contains its fixed descendants.
    pub contains_fixed: bool,
}

impl ScaleNode {
    /// The state that counts.
    pub open spec fn state(self) -> Option<Seq<char>> {
        match (self.important, self.ordinary) {
            (Some(s), _) => Some(s@),
            (None, Some(s)) => Some(s@),
            (None, None) => None,
        }
    }

    fn declares(&self, word: &str) -> (r: bool)
        ensures
            r == (self.state() == Some(word@)),
    {
        match (&self.important, &self.ordinary) {
            (Some(s), _) => same_text(s.as_str(), word),
            (None, Some(s)) => same_text(s.as_str(), word),
            (None, None) => false,
        }
    }
}

/// Whether a node has a scale: it declares one, or inherits it from a parent that has one.
pub open spec fn scaled(nodes: Seq<ScaleNode>, at: int) -> bool
    decreases at,
{
    if at < 0 || at >= nodes.len() {
        false
    } else if nodes[at].state() == Some("present"@) {
        true
    } else if nodes[at].state() == Some("inherit"@) {
        match nodes[at].parent {
            Some(p) => p < at && scaled(nodes, p as int),
            None => false,
        }
    } else {
        false
    }
}

/// Whether a node's transform becomes the identity.
pub open spec fn preserved(nodes: Seq<ScaleNode>, at: int) -> bool {
    scaled(nodes, at) && !nodes[at].contains_fixed
}

/// Says of each node whether its transform becomes the identity.
pub fn preserve_identity(nodes: &Vec<ScaleNode>) -> (r: Vec<bool>)
    ensures
        r@.len() == nodes@.len(),
        forall|i: int| 0 <= i < nodes@.len() ==> #[trigger] r@[i] == preserved(nodes@, i),
{
    let mut present: Vec<bool> = Vec::new();
    let mut out: Vec<bool> = Vec::new();
    let mut i: usize = 0;
    while i < nodes.len()
        invariant
            i <= nodes@.len(),
            present@.len() == i,
            out@.len() == i,
            forall|k: int| 0 <= k < i ==> #[trigger] present@[k] == scaled(nodes@, k),
            forall|k: int| 0 <= k < i ==> #[trigger] out@[k] == preserved(nodes@, k),
        decreases nodes@.len() - i,
    {
        let here: bool = if nodes[i].declares("present") {
            true
        } else if nodes[i].declares("inherit") {
            match nodes[i].parent {
                Some(p) => p < i && present[p],
                None => false,
            }
        } else {
            false
        };
        assert(here == scaled(nodes@, i as int));
        present.push(here);
        out.push(here && !nodes[i].contains_fixed);
        i = i + 1;
    }
    out
}

/// Under a chain of nodes that all inherit their scale, only the top decides.
pub proof fn inheritance_reaches_down(nodes: Seq<ScaleNode>, at: int)
    requires
        0 <= at < nodes.len(),
        nodes[at].state() == Some("inherit"@),
        nodes[at].parent matches Some(p) && p < at,
    ensures
        scaled(nodes, at) == scaled(nodes, nodes[at].parent->0 as int),
{
    reveal_strlit("present");
    reveal_strlit("inherit");
    assert("present"@[0] != "inherit"@[0]);
}

} // verus!
