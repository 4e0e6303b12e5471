//! The authority registry on its own: who may produce blocks.

use crate::blockchain::is_authority_in;
use crate::blockchain::nodes_view;
use crate::blockchain::registry_has_authority;
use crate::node::Node;
use crate::node::NodeView;
use vstd::prelude::*;

verus! {

/// The set of identities that may produce blocks, in the order of
/// registration. Entries are never removed.
#[derive(Debug)]
pub struct PoA {
    /// The registered nodes.
    pub authorities: Vec<Node>,
}

impl View for PoA {
    type V = Seq<NodeView>;

    open spec fn view(&self) -> Seq<NodeView> {
        nodes_view(self.authorities@)
    }
}

impl PoA {
    /// A registry without entries.
    pub fn new() -> (registry: PoA)
        ensures
            registry@.len() == 0,
    {
        PoA { authorities: Vec::new() }
    }

    /// Registers `node` at the end of the registry.
    pub fn add_authority(&mut self, node: Node)
        ensures
            final(self)@ == old(self)@.push(node@),
    {
        self.authorities.push(node);
        assert(self@ =~= old(self)@.push(node@));
    }

    /// Whether some entry has the identifier `node_id` and is marked as an
    /// authority.
    pub fn is_authority(&self, node_id: &str) -> (found: bool)
        ensures
            found == is_authority_in(self@, node_id@),
    {
        registry_has_authority(&self.authorities, node_id)
    }
}

} // verus!
