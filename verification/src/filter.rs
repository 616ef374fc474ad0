//! The filter controller: three independent skip flags, one per record
//! kind, and the pure derivations the consumption drivers use. A skipped
//! kind is never buffered, typed or built.

use vstd::prelude::*;
use crate::model::ObjKind;

verus! {

/// Which record kinds the assembler should skip.
#[derive(Clone, Copy, PartialEq, Eq, Structural, Debug)]
pub struct SkipConfig {
    pub skip_nodes: bool,
    pub skip_ways: bool,
    pub skip_relations: bool,
}

impl SkipConfig {
    /// The flag for one kind.
    pub open spec fn spec_skips(&self, kind: ObjKind) -> bool {
        match kind {
            ObjKind::Node => self.skip_nodes,
            ObjKind::Way => self.skip_ways,
            ObjKind::Relation => self.skip_relations,
        }
    }

    /// Keep every kind.
    pub fn keep_all() -> (c: SkipConfig)
        ensures
            !c.skip_nodes && !c.skip_ways && !c.skip_relations,
    {
        SkipConfig { skip_nodes: false, skip_ways: false, skip_relations: false }
    }

    /// Reads the flag for one kind.
    pub fn skips(&self, kind: ObjKind) -> (b: bool)
        ensures
            b == self.spec_skips(kind),
    {
        match kind {
            ObjKind::Node => self.skip_nodes,
            ObjKind::Way => self.skip_ways,
            ObjKind::Relation => self.skip_relations,
        }
    }
}

/// The configuration of a per-kind driver: the wanted kind is kept and the
/// other two are skipped.
pub fn only_kind(kind: ObjKind) -> (c: SkipConfig)
    ensures
        c.skip_nodes == (kind != ObjKind::Node),
        c.skip_ways == (kind != ObjKind::Way),
        c.skip_relations == (kind != ObjKind::Relation),
{
    SkipConfig {
        skip_nodes: !matches!(kind, ObjKind::Node),
        skip_ways: !matches!(kind, ObjKind::Way),
        skip_relations: !matches!(kind, ObjKind::Relation),
    }
}

/// The configuration of the all-kinds driver: a kind is skipped exactly
/// when no handler is supplied for it.
pub fn from_handlers(want_nodes: bool, want_ways: bool, want_relations: bool) -> (c: SkipConfig)
    ensures
        c.skip_nodes == !want_nodes,
        c.skip_ways == !want_ways,
        c.skip_relations == !want_relations,
{
    SkipConfig {
        skip_nodes: !want_nodes,
        skip_ways: !want_ways,
        skip_relations: !want_relations,
    }
}

} // verus!
