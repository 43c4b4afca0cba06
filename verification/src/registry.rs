//! Run-scoped registry of resource types.
//!
//! Every resource type the generator meets is filed here with the direction
//! it is generated for. A resource first seen in import context defaults to
//! Import; a sighting in export context always promotes it to Export, and
//! nothing ever demotes it back. Every handle lower/lift site reads the
//! registered direction to pick the handle representation, so the choice is
//! stable across a whole run.

use vstd::prelude::*;

verus! {

/// Which side of the boundary a resource's glue is generated for.
#[derive(Clone, Copy, PartialEq, Eq, Structural, Debug)]
pub enum Direction {
    Import,
    Export,
}

/// What the registry knows about one resource type.
pub struct ResourceInfo {
    pub direction: Direction,
    /// The companion own-handle type, once one is registered.
    pub own: Option<usize>,
    /// Documentation carried over from the declaration.
    pub docs: Option<String>,
}

/// The registry: one optional entry per type-table index.
pub struct ResourceRegistry {
    pub entries: Vec<Option<ResourceInfo>>,
}

/// The registry contents after classifying type `t` in the given context.
pub open spec fn spec_classify(
    s: Seq<Option<ResourceInfo>>,
    t: int,
    export_ctx: bool,
    docs: Option<String>,
) -> Seq<Option<ResourceInfo>> {
    let dir0 = match s[t] {
        Some(info) => info.direction,
        None => Direction::Import,
    };
    let own0 = match s[t] {
        Some(info) => info.own,
        None => None,
    };
    let dir = if export_ctx {
        Direction::Export
    } else {
        dir0
    };
    s.update(t, Some(ResourceInfo { direction: dir, own: own0, docs: docs }))
}

/// Whether entry `t` is classified Export.
pub open spec fn spec_is_exported(s: Seq<Option<ResourceInfo>>, t: int) -> bool {
    0 <= t < s.len() && match s[t] {
        Some(info) => info.direction == Direction::Export,
        None => false,
    }
}

impl ResourceRegistry {
    /// An empty registry covering a type table of `n` entries.
    pub fn new(n: usize) -> (r: ResourceRegistry)
        ensures
            r.entries@.len() == n,
            forall|i: int| 0 <= i < n ==> (#[trigger] r.entries@[i]) is None,
    {
        let mut entries: Vec<Option<ResourceInfo>> = Vec::new();
        let mut k: usize = 0;
        while k < n
            invariant
                k <= n,
                entries@.len() == k,
                forall|i: int| 0 <= i < k ==> (#[trigger] entries@[i]) is None,
            decreases n - k,
        {
            entries.push(None);
            k = k + 1;
        }
        ResourceRegistry { entries }
    }

    /// Records a sighting of resource `t`: first seen in import context it
    /// defaults to Import; a sighting in export context always promotes to
    /// Export; an import sighting never demotes an Export entry.
    pub fn classify(&mut self, t: usize, export_ctx: bool, docs: Option<String>)
        requires
            t < old(self).entries@.len(),
        ensures
            final(self).entries@ == spec_classify(old(self).entries@, t as int, export_ctx, docs),
            spec_is_exported(old(self).entries@, t as int) ==> spec_is_exported(
                final(self).entries@,
                t as int,
            ),
    {
        let dir: Direction = if export_ctx {
            Direction::Export
        } else {
            match &self.entries[t] {
                Some(info) => info.direction,
                None => Direction::Import,
            }
        };
        let own: Option<usize> = match &self.entries[t] {
            Some(info) => info.own,
            None => None,
        };
        self.entries.set(t, Some(ResourceInfo { direction: dir, own, docs }));
    }

    /// Records the own-handle companion type for resource `t`, creating the
    /// entry with the Import default when the resource is still unknown.
    pub fn register_own_handle(&mut self, t: usize, handle: usize)
        requires
            t < old(self).entries@.len(),
        ensures
            final(self).entries@.len() == old(self).entries@.len(),
            forall|i: int|
                0 <= i < old(self).entries@.len() && i != t ==> final(self).entries@[i] == old(
                    self,
                ).entries@[i],
            final(self).entries@[t as int] is Some,
            final(self).entries@[t as int]->Some_0.own == Some(handle),
            final(self).entries@[t as int]->Some_0.direction == (
            match old(self).entries@[t as int] {
                Some(info) => info.direction,
                None => Direction::Import,
            }),
            spec_is_exported(old(self).entries@, t as int) ==> spec_is_exported(
                final(self).entries@,
                t as int,
            ),
    {
        let dir: Direction = match &self.entries[t] {
            Some(info) => info.direction,
            None => Direction::Import,
        };
        let docs: Option<String> = match &self.entries[t] {
            Some(info) => match &info.docs {
                Some(d) => Some(d.clone()),
                None => None,
            },
            None => None,
        };
        self.entries.set(t, Some(ResourceInfo { direction: dir, own: Some(handle), docs }));
    }

    /// The registered direction of type `t`, if any sighting was recorded.
    pub fn direction(&self, t: usize) -> (r: Option<Direction>)
        requires
            t < self.entries@.len(),
        ensures
            r == (match self.entries@[t as int] {
                Some(info) => Some(info.direction),
                None => None::<Direction>,
            }),
    {
        match &self.entries[t] {
            Some(info) => Some(info.direction),
            None => None,
        }
    }

    /// Whether type `t` has been classified Export.
    pub fn is_exported(&self, t: usize) -> (r: bool)
        ensures
            r == spec_is_exported(self.entries@, t as int),
    {
        if t < self.entries.len() {
            match &self.entries[t] {
                Some(info) => match info.direction {
                    Direction::Export => true,
                    Direction::Import => false,
                },
                None => false,
            }
        } else {
            false
        }
    }

    /// The registered own-handle companion of type `t`.
    pub fn own_handle(&self, t: usize) -> (r: Option<usize>)
        requires
            t < self.entries@.len(),
        ensures
            r == (match self.entries@[t as int] {
                Some(info) => info.own,
                None => None::<usize>,
            }),
    {
        match &self.entries[t] {
            Some(info) => info.own,
            None => None,
        }
    }
}

/// Once a resource is classified Export, it stays Export through every
/// later sighting, whichever side makes it: classification is stable for
/// the rest of the run.
pub proof fn lemma_export_direction_stable(
    s: Seq<Option<ResourceInfo>>,
    t: int,
    t2: int,
    export_ctx: bool,
    docs: Option<String>,
)
    requires
        spec_is_exported(s, t),
        0 <= t2 < s.len(),
    ensures
        spec_is_exported(spec_classify(s, t2, export_ctx, docs), t),
{
}

} // verus!
