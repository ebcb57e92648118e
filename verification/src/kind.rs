//! The three strengths a capability can have, and their order.

use core::cmp::Ordering;
use vstd::prelude::*;
use vstd::std_specs::cmp::PartialOrdSpecImpl;

verus! {

/// How far a capability may travel between contexts.
///
/// The kinds are totally ordered: `Static < Inherit < Send`. A stronger kind
/// implies every weaker one.
#[derive(Clone, Copy, Debug, PartialEq, Eq, Structural, Ord, Hash)]
pub enum Kind {
    /// Stays in the context that holds it.
    Static,
    /// May be handed to child contexts, but to no other.
    Inherit,
    /// May be handed to any context.
    Send,
}

impl Kind {
    /// The position of the kind in the order: 0, 1 or 2.
    pub open spec fn rank(self) -> nat {
        match self {
            Kind::Static => 0,
            Kind::Inherit => 1,
            Kind::Send => 2,
        }
    }

    /// `self` is at least as strong as `other`.
    pub open spec fn implies(self, other: Kind) -> bool {
        self.rank() >= other.rank()
    }

    /// The position of the kind in the order, as a machine integer.
    pub fn level(self) -> (r: u8)
        ensures
            r == self.rank(),
    {
        match self {
            Kind::Static => 0,
            Kind::Inherit => 1,
            Kind::Send => 2,
        }
    }

    /// How two kinds compare by rank.
    pub open spec fn compare(self, other: Kind) -> Ordering {
        if self.rank() < other.rank() {
            Ordering::Less
        } else if self.rank() == other.rank() {
            Ordering::Equal
        } else {
            Ordering::Greater
        }
    }
}

impl PartialOrd for Kind {
    fn partial_cmp(&self, other: &Kind) -> (r: Option<Ordering>) {
        let a: u8 = self.level();
        let b: u8 = other.level();
        if a < b {
            Some(Ordering::Less)
        } else if a == b {
            Some(Ordering::Equal)
        } else {
            Some(Ordering::Greater)
        }
    }
}

impl PartialOrdSpecImpl for Kind {
    open spec fn obeys_partial_cmp_spec() -> bool {
        true
    }

    open spec fn partial_cmp_spec(&self, other: &Kind) -> Option<Ordering> {
        Some(self.compare(*other))
    }
}

/// The order on kinds is strict and total: `Static < Inherit < Send`, any two
/// kinds are comparable, and two kinds of equal rank are the same kind. The
/// operators `<`, `<=`, `>` and `>=` compare kinds by this order.
pub proof fn lemma_kind_order(a: Kind, b: Kind, c: Kind)
    ensures
        Kind::Static.rank() < Kind::Inherit.rank() < Kind::Send.rank(),
        vstd::std_specs::cmp::PartialOrdSpec::partial_cmp_spec(&a, &b) == Some(a.compare(b)),
        Kind::Static.compare(Kind::Inherit) == Ordering::Less,
        Kind::Inherit.compare(Kind::Send) == Ordering::Less,
        Kind::Static.compare(Kind::Send) == Ordering::Less,
        a.compare(b) == Ordering::Less <==> a.rank() < b.rank(),
        a.compare(b) == Ordering::Equal <==> a == b,
        a.compare(b) == Ordering::Greater <==> a.rank() > b.rank(),
        a.rank() == b.rank() <==> a == b,
        a.implies(b) || b.implies(a),
        a.implies(a),
        a.implies(b) && b.implies(a) ==> a == b,
        a.implies(b) && b.implies(c) ==> a.implies(c),
        Kind::Send.implies(a),
        a.implies(Kind::Static),
{
}

} // verus!
