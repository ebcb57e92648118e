//! Capabilities: the tokens through which schemes grant privileges.
//!
//! A capability is a byte sequence whose meaning belongs to the scheme that
//! issued it, tagged with a [`Kind`] that says how far it may be passed on.

use crate::bytes::bytes_eq;
use crate::kind::Kind;
use vstd::prelude::*;

verus! {

/// What a capability is, mathematically: its payload and its kind.
pub ghost struct CapabilityModel {
    pub data: Seq<u8>,
    pub kind: Kind,
}

/// A capability.
///
/// If the kind of capability X implies the kind of capability Y and both carry
/// the same data, Y is a subcapability of X.
#[derive(Debug)]
pub struct Capability {
    data: Vec<u8>,
    kind: Kind,
}

impl View for Capability {
    type V = CapabilityModel;

    closed spec fn view(&self) -> CapabilityModel {
        CapabilityModel { data: self.data@, kind: self.kind }
    }
}

impl Capability {
    /// A capability with the given payload and kind.
    pub fn new(data: Vec<u8>, kind: Kind) -> (capability: Capability)
        ensures
            capability@.data == data@,
            capability@.kind == kind,
    {
        Capability { data, kind }
    }

    /// The payload.
    pub fn data(&self) -> (data: &Vec<u8>)
        ensures
            data@ == self@.data,
    {
        &self.data
    }

    /// The kind.
    pub fn kind(&self) -> (kind: Kind)
        ensures
            kind == self@.kind,
    {
        self.kind
    }

    /// Is this capability inheritable (may it be passed to children)?
    pub fn is_inheritable(&self) -> (r: bool)
        ensures
            r <==> self@.kind.implies(Kind::Inherit),
            r <==> self@.kind != Kind::Static,
    {
        self.kind >= Kind::Inherit
    }

    /// Is this capability sendable (may it be passed to arbitrary contexts)?
    pub fn is_sendable(&self) -> (r: bool)
        ensures
            r <==> self@.kind.implies(Kind::Send),
            r <==> self@.kind == Kind::Send,
    {
        self.kind >= Kind::Send
    }

    /// Replace the payload, leaving the kind as it is.
    ///
    /// Only the scheme that issued the capability should ever reach this: a
    /// holder that could choose the payload could grant itself any privilege.
    pub fn set_data(&mut self, data: Vec<u8>)
        ensures
            final(self)@.data == data@,
            final(self)@.kind == old(self)@.kind,
    {
        self.data = data;
    }
}

/// A set of capabilities: at most one kind for each payload.
#[derive(Debug)]
pub struct CapabilitySet {
    entries: Vec<Capability>,
}

impl View for CapabilitySet {
    type V = Map<Seq<u8>, Kind>;

    /// The map from each held payload to the kind it is held with.
    closed spec fn view(&self) -> Map<Seq<u8>, Kind> {
        Map::new(
            |data: Seq<u8>| Self::position(self.entries@, data) is Some,
            |data: Seq<u8>| self.entries@[Self::position(self.entries@, data).unwrap()].kind,
        )
    }
}

impl CapabilitySet {
    /// An index at which `entries` holds the payload `data`, if there is one.
    spec fn position(entries: Seq<Capability>, data: Seq<u8>) -> Option<int> {
        if exists|i: int| 0 <= i < entries.len() && #[trigger] entries[i].data@ == data {
            Some(choose|i: int| 0 <= i < entries.len() && #[trigger] entries[i].data@ == data)
        } else {
            None
        }
    }

    /// No payload occurs twice.
    spec fn distinct(entries: Seq<Capability>) -> bool {
        forall|i: int, j: int|
            0 <= i < j < entries.len() ==> (#[trigger] entries[i]).data@ != (
            #[trigger] entries[j]).data@
    }

    /// No payload is stored twice.
    #[verifier::type_invariant]
    spec fn well_formed(&self) -> bool {
        Self::distinct(self.entries@)
    }

    /// With distinct payloads, the entry at `i` is the one its payload maps to.
    proof fn lemma_position(entries: Seq<Capability>, i: int)
        requires
            Self::distinct(entries),
            0 <= i < entries.len(),
        ensures
            Self::position(entries, entries[i].data@) == Some(i),
    {
        let data = entries[i].data@;
        assert(entries[i].data@ == data);
        let j = choose|j: int| 0 <= j < entries.len() && #[trigger] entries[j].data@ == data;
        assert(entries[j].data@ == entries[i].data@);
    }

    /// `self` satisfies a request for the payload `data` at strength `kind`:
    /// it holds `data` with a kind that implies `kind`.
    pub open spec fn holds(&self, data: Seq<u8>, kind: Kind) -> bool {
        self@.contains_key(data) && self@[data].implies(kind)
    }

    /// Every capability held by `self` is satisfied by `other`.
    pub open spec fn is_subset_of(&self, other: &CapabilitySet) -> bool {
        forall|data: Seq<u8>| #[trigger]
            self@.contains_key(data) ==> other.holds(data, self@[data])
    }

    /// The empty set.
    pub fn new() -> (set: CapabilitySet)
        ensures
            set@ == Map::<Seq<u8>, Kind>::empty(),
    {
        let set = CapabilitySet { entries: Vec::new() };
        assert(set@ =~= Map::<Seq<u8>, Kind>::empty());
        set
    }

    /// The number of capabilities held.
    pub fn len(&self) -> (n: usize)
        ensures
            n == self@.len(),
            self@.dom().finite(),
    {
        proof {
            use_type_invariant(self);
            Self::lemma_domain(self.entries@);
        }
        self.entries.len()
    }

    /// The domain of the view is the set of payloads of the entries, and has
    /// as many elements as there are entries.
    proof fn lemma_domain(entries: Seq<Capability>)
        requires
            Self::distinct(entries),
        ensures
            Set::new(|data: Seq<u8>| Self::position(entries, data) is Some).finite(),
            Set::new(|data: Seq<u8>| Self::position(entries, data) is Some).len() == entries.len(),
        decreases entries.len(),
    {
        let dom = Set::new(|data: Seq<u8>| Self::position(entries, data) is Some);
        if entries.len() == 0 {
            assert(dom =~= Set::<Seq<u8>>::empty());
        } else {
            let front = entries.drop_last();
            let last = entries.last();
            let front_dom = Set::new(|data: Seq<u8>| Self::position(front, data) is Some);
            assert(Self::distinct(front)) by {
                assert forall|i: int, j: int| 0 <= i < j < front.len() implies (
                #[trigger] front[i]).data@ != (#[trigger] front[j]).data@ by {
                    assert(front[i] == entries[i]);
                    assert(front[j] == entries[j]);
                }
            }
            Self::lemma_domain(front);
            assert(!front_dom.contains(last.data@)) by {
                if Self::position(front, last.data@) is Some {
                    let i = Self::position(front, last.data@).unwrap();
                    assert(front[i] == entries[i]);
                    assert(entries[i].data@ == entries[entries.len() - 1].data@);
                }
            }
            assert(dom =~= front_dom.insert(last.data@)) by {
                assert forall|data: Seq<u8>| dom.contains(data) <==> front_dom.insert(
                    last.data@,
                ).contains(data) by {
                    if dom.contains(data) {
                        let i = Self::position(entries, data).unwrap();
                        if i < front.len() {
                            assert(front[i].data@ == data);
                        }
                    }
                    if front_dom.contains(data) {
                        let i = Self::position(front, data).unwrap();
                        assert(entries[i].data@ == data);
                    }
                    if data == last.data@ {
                        assert(entries[entries.len() - 1].data@ == data);
                    }
                }
            }
        }
    }

    /// The kind with which the payload `data` is held, if it is held.
    pub fn get(&self, data: &[u8]) -> (kind: Option<Kind>)
        ensures
            kind == (if self@.contains_key(data@) {
                Some(self@[data@])
            } else {
                None
            }),
    {
        proof {
            use_type_invariant(self);
        }
        match Self::find(&self.entries, data) {
            Some(i) => {
                proof {
                    Self::lemma_position(self.entries@, i as int);
                }
                Some(self.entries[i].kind)
            },
            None => None,
        }
    }

    /// The index of the entry that holds the payload `data`, if there is one.
    fn find(entries: &Vec<Capability>, data: &[u8]) -> (found: Option<usize>)
        ensures
            match found {
                Some(i) => i < entries@.len() && entries@[i as int].data@ == data@,
                None => forall|j: int|
                    0 <= j < entries@.len() ==> (#[trigger] entries@[j]).data@ != data@,
            },
    {
        let mut i: usize = 0;
        while i < entries.len()
            invariant
                0 <= i <= entries.len(),
                forall|j: int| 0 <= j < i ==> (#[trigger] entries@[j]).data@ != data@,
            decreases entries.len() - i,
        {
            if bytes_eq(entries[i].data.as_slice(), data) {
                return Some(i);
            }
            i += 1;
        }
        None
    }

    /// Insert a capability into the set, replacing the kind of one already
    /// held with the same payload. Returns the set, so that inserts can be
    /// chained.
    pub fn insert(&mut self, capability: Capability) -> (set: &mut CapabilitySet)
        ensures
            set@ == old(self)@.insert(capability@.data, capability@.kind),
            *final(self) == *final(set),
    {
        proof {
            use_type_invariant(&*self);
        }
        let ghost before = self.entries@;
        let ghost data = capability.data@;
        let ghost kind = capability.kind;
        let ghost at: int;
        // The entries leave the set while they change, and come back whole.
        let mut taken = CapabilitySet { entries: Vec::new() };
        core::mem::swap(self, &mut taken);
        let mut entries = taken.entries;
        match Self::find(&entries, capability.data.as_slice()) {
            Some(i) => {
                entries.set(i, capability);
                proof {
                    at = i as int;
                }
            },
            None => {
                entries.push(capability);
                proof {
                    at = before.len() as int;
                }
            },
        }
        let ghost after = entries@;
        proof {
            assert(after[at].data@ == data && after[at].kind == kind);
            assert(Self::distinct(after));
            assert forall|d: Seq<u8>|
                Self::position(after, d) is Some <==> (d == data || Self::position(
                    before,
                    d,
                ) is Some) by {
                if Self::position(after, d) is Some {
                    let i = Self::position(after, d).unwrap();
                    if d != data {
                        assert(before[i].data@ == d);
                    }
                }
                if Self::position(before, d) is Some {
                    let i = Self::position(before, d).unwrap();
                    assert(after[i].data@ == d);
                }
                if d == data {
                    assert(after[at].data@ == d);
                }
            }
            assert forall|d: Seq<u8>| Self::position(after, d) is Some implies after[Self::position(
                after,
                d,
            ).unwrap()].kind == (if d == data {
                kind
            } else {
                before[Self::position(before, d).unwrap()].kind
            }) by {
                let i = Self::position(after, d).unwrap();
                Self::lemma_position(after, i);
                if d != data {
                    assert(before[i].data@ == d);
                    Self::lemma_position(before, i);
                }
            }
        }
        *self = CapabilitySet { entries };
        assert(self@ =~= old(self)@.insert(data, kind));
        self
    }

    /// Does this set hold `data` with a kind that implies `kind`?
    pub fn contains_imp(&self, data: &[u8], kind: Kind) -> (r: bool)
        ensures
            r <==> self.holds(data@, kind),
    {
        match self.get(data) {
            Some(held) => held >= kind,
            None => false,
        }
    }

    /// Does this set contain this capability, or one that it is a
    /// subcapability of?
    pub fn contains(&self, elem: &Capability) -> (r: bool)
        ensures
            r <==> self.holds(elem@.data, elem@.kind),
    {
        self.contains_imp(elem.data.as_slice(), elem.kind)
    }

    /// Check if `self` is a subset of (or equal to) `other`: whether `other`
    /// satisfies every capability that `self` holds, so that `other` can be
    /// downgraded to `self`.
    pub fn subset_of(&self, other: &CapabilitySet) -> (r: bool)
        ensures
            r <==> self.is_subset_of(other),
    {
        proof {
            use_type_invariant(self);
        }
        let mut i: usize = 0;
        while i < self.entries.len()
            invariant
                0 <= i <= self.entries.len(),
                Self::distinct(self.entries@),
                forall|j: int|
                    0 <= j < i ==> other.holds(
                        (#[trigger] self.entries@[j]).data@,
                        self.entries@[j].kind,
                    ),
            decreases self.entries.len() - i,
        {
            proof {
                Self::lemma_position(self.entries@, i as int);
            }
            if !other.contains_imp(self.entries[i].data.as_slice(), self.entries[i].kind) {
                assert(self@.contains_key(self.entries@[i as int].data@));
                return false;
            }
            i += 1;
        }
        proof {
            assert forall|data: Seq<u8>| #[trigger] self@.contains_key(data) implies other.holds(
                data,
                self@[data],
            ) by {
                let j = Self::position(self.entries@, data).unwrap();
                assert(self.entries@[j].data@ == data);
            }
        }
        true
    }
}

/// A capability held as sendable satisfies a request for its payload at every
/// kind, and a payload that is not held satisfies no request at all.
pub proof fn lemma_sendable_contains_all(
    set: CapabilitySet,
    held: Seq<u8>,
    absent: Seq<u8>,
    kind: Kind,
)
    requires
        set@.contains_key(held),
        set@[held] == Kind::Send,
        !set@.contains_key(absent),
    ensures
        set.holds(held, Kind::Static),
        set.holds(held, Kind::Inherit),
        set.holds(held, Kind::Send),
        set.holds(held, kind),
        !set.holds(absent, kind),
{
}

/// What is held satisfies a request at or below its own strength, and none
/// above it.
pub proof fn lemma_holds_iff_implied(set: CapabilitySet, data: Seq<u8>, kind: Kind)
    requires
        set@.contains_key(data),
    ensures
        set.holds(data, kind) <==> set@[data].rank() >= kind.rank(),
{
}

/// Every set is a subset of itself.
pub proof fn lemma_subset_reflexive(a: CapabilitySet)
    ensures
        a.is_subset_of(&a),
{
}

/// The subset relation is transitive.
pub proof fn lemma_subset_transitive(a: CapabilitySet, b: CapabilitySet, c: CapabilitySet)
    requires
        a.is_subset_of(&b),
        b.is_subset_of(&c),
    ensures
        a.is_subset_of(&c),
{
    assert forall|data: Seq<u8>| #[trigger] a@.contains_key(data) implies c.holds(
        data,
        a@[data],
    ) by {
        assert(b@.contains_key(data));
    }
}

/// The empty set is a subset of every set.
pub proof fn lemma_empty_is_subset(a: CapabilitySet, b: CapabilitySet)
    requires
        a@ == Map::<Seq<u8>, Kind>::empty(),
    ensures
        a.is_subset_of(&b),
{
}

/// A set that holds anything is not a subset of the empty set.
pub proof fn lemma_nonempty_not_subset_of_empty(a: CapabilitySet, b: CapabilitySet)
    requires
        a@ != Map::<Seq<u8>, Kind>::empty(),
        b@ == Map::<Seq<u8>, Kind>::empty(),
    ensures
        !a.is_subset_of(&b),
{
    if forall|data: Seq<u8>| !a@.contains_key(data) {
        assert(a@ =~= Map::<Seq<u8>, Kind>::empty());
    }
    let data = choose|data: Seq<u8>| a@.contains_key(data);
    assert(a@.contains_key(data));
}

/// A set is a subset of another exactly when each of its capabilities has an
/// entry with the same payload there, of a kind at least as strong.
pub proof fn lemma_subset_iff(a: CapabilitySet, b: CapabilitySet)
    ensures
        a.is_subset_of(&b) <==> forall|data: Seq<u8>| #[trigger]
            a@.contains_key(data) ==> b@.contains_key(data) && b@[data].rank() >= a@[data].rank(),
{
    if a.is_subset_of(&b) {
        assert forall|data: Seq<u8>| #[trigger] a@.contains_key(data) implies b@.contains_key(
            data,
        ) && b@[data].rank() >= a@[data].rank() by {
            assert(b.holds(data, a@[data]));
        }
    }
}

} // verus!
