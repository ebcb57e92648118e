//! The control block of a process or thread.

use crate::capability::CapabilitySet;
use crate::data::Event;
use crate::path::{canonical, canonicalize};
use crate::resource::Resource;
use std::collections::BTreeMap;
use std::collections::VecDeque;
use vstd::prelude::*;

verus! {

/// The most resource handles one context can hold.
pub const CONTEXT_MAX_RESOURCES: usize = 65536;

/// Where a context stands in its life.
#[derive(Copy, Clone, Debug, PartialEq, Eq, Structural)]
pub enum Status {
    /// Ready to be dispatched on a core.
    Runnable,
    /// Waiting: for its creator to release it, for a resource or for a signal.
    Blocked,
    /// Terminated with the given code. Nothing follows this state.
    Exited(usize),
}

impl Status {
    /// The lifecycle allows a context in state `self` to enter state `next`:
    /// a blocked context may be made runnable, a runnable one may block, and
    /// either may exit. An exited context stays as it is.
    pub open spec fn may_become(self, next: Status) -> bool {
        match (self, next) {
            (Status::Blocked, Status::Runnable) => true,
            (Status::Runnable, Status::Blocked) => true,
            (Status::Blocked, Status::Exited(_)) => true,
            (Status::Runnable, Status::Exited(_)) => true,
            _ => false,
        }
    }

    /// Whether the lifecycle allows the step from `self` to `next`.
    pub fn can_become(self, next: Status) -> (r: bool)
        ensures
            r == self.may_become(next),
    {
        match (self, next) {
            (Status::Blocked, Status::Runnable) => true,
            (Status::Runnable, Status::Blocked) => true,
            (Status::Blocked, Status::Exited(_)) => true,
            (Status::Runnable, Status::Exited(_)) => true,
            _ => false,
        }
    }

    /// Whether the context has terminated.
    pub fn is_exited(self) -> (r: bool)
        ensures
            r == (self is Exited),
    {
        match self {
            Status::Exited(_) => true,
            _ => false,
        }
    }
}

/// A context that has exited stays exited, and a context that has not can
/// always exit.
pub proof fn lemma_exited_is_terminal(status: Status, next: Status, code: usize)
    ensures
        status is Exited ==> !status.may_become(next),
        !(status is Exited) ==> status.may_become(Status::Exited(code)),
        !status.may_become(status),
{
}

/// The lowest index of `slots` that holds no handle.
pub open spec fn first_free(slots: Seq<Option<Resource>>) -> Option<int>
    decreases slots.len(),
{
    if slots.len() == 0 {
        None
    } else {
        match first_free(slots.drop_last()) {
            Some(i) => Some(i),
            None => if slots.last() is None {
                Some(slots.len() - 1)
            } else {
                None
            },
        }
    }
}

/// The index at which a handle is installed in `slots`: the lowest free
/// slot, else one past the end while the table may still grow, else none.
pub open spec fn slot_for(slots: Seq<Option<Resource>>) -> Option<int> {
    match first_free(slots) {
        Some(i) => Some(i),
        None => if slots.len() < CONTEXT_MAX_RESOURCES {
            Some(slots.len() as int)
        } else {
            None
        },
    }
}

/// `slots` after `handle` has been installed at `index`, which is a slot of
/// the table or one past its end.
pub open spec fn install(slots: Seq<Option<Resource>>, index: int, handle: Resource) -> Seq<
    Option<Resource>,
> {
    if index < slots.len() {
        slots.update(index, Some(handle))
    } else {
        slots.push(Some(handle))
    }
}

/// `first_free` finds a free slot below which every slot is taken, and finds
/// none only where every slot is taken.
pub proof fn lemma_first_free(slots: Seq<Option<Resource>>)
    ensures
        match first_free(slots) {
            Some(i) => 0 <= i < slots.len() && slots[i] is None && forall|j: int|
                0 <= j < i ==> (#[trigger] slots[j]) is Some,
            None => forall|j: int| 0 <= j < slots.len() ==> (#[trigger] slots[j]) is Some,
        },
    decreases slots.len(),
{
    if slots.len() > 0 {
        let front = slots.drop_last();
        lemma_first_free(front);
        assert forall|j: int| 0 <= j < front.len() implies front[j] == slots[j] by {}
    }
}

/// The first handle of an empty table gets the descriptor 0.
pub proof fn lemma_first_descriptor_is_zero()
    ensures
        slot_for(Seq::<Option<Resource>>::empty()) == Some(0int),
{
}

/// A closed descriptor is the next one handed out where every descriptor
/// below it is open, and no higher one is handed out in any case.
pub proof fn lemma_closed_descriptor_is_reused(slots: Seq<Option<Resource>>, closed: int)
    requires
        0 <= closed < slots.len(),
    ensures
        slot_for(slots.update(closed, None)) is Some,
        slot_for(slots.update(closed, None)).unwrap() <= closed,
        (forall|j: int| 0 <= j < closed ==> (#[trigger] slots[j]) is Some) ==> slot_for(
            slots.update(closed, None),
        ) == Some(closed),
{
    let after = slots.update(closed, None);
    lemma_first_free(after);
    assert(after[closed] is None);
    if forall|j: int| 0 <= j < closed ==> (#[trigger] slots[j]) is Some {
        let k = first_free(after).unwrap();
        if k < closed {
            assert(after[k] == slots[k]);
        }
    }
}

/// A table has no room for another handle exactly when it has reached its
/// maximum length and every slot is taken.
pub proof fn lemma_exhausted(slots: Seq<Option<Resource>>)
    ensures
        slot_for(slots) is None <==> slots.len() >= CONTEXT_MAX_RESOURCES && forall|j: int|
            0 <= j < slots.len() ==> (#[trigger] slots[j]) is Some,
{
    lemma_first_free(slots);
    if first_free(slots) is Some {
        let k = first_free(slots).unwrap();
        assert(slots[k] is None);
    }
}

/// Installing a handle takes the slot it was given, leaves every other slot
/// as it was, and never lets the table outgrow its maximum.
pub proof fn lemma_install(slots: Seq<Option<Resource>>, handle: Resource)
    requires
        slot_for(slots) is Some,
    ensures
        ({
            let index = slot_for(slots).unwrap();
            let after = install(slots, index, handle);
            &&& 0 <= index <= slots.len()
            &&& index < after.len()
            &&& after[index] == Some(handle)
            &&& slots.len() <= after.len() <= slots.len() + 1
            &&& slots.len() <= CONTEXT_MAX_RESOURCES ==> after.len() <= CONTEXT_MAX_RESOURCES
            &&& forall|j: int| 0 <= j < slots.len() && j != index ==> #[trigger] after[j] == slots[j]
        }),
{
    lemma_first_free(slots);
}

/// A context, which identifies either a process or a thread.
#[derive(Debug)]
pub struct Context {
    /// The ID of this context.
    pub id: usize,
    /// The ID of the parent context.
    pub ppid: usize,
    /// The real user id.
    pub ruid: u32,
    /// The real group id.
    pub rgid: u32,
    /// The effective user id.
    pub euid: u32,
    /// The effective group id.
    pub egid: u32,
    /// Status of context.
    pub status: Status,
    /// Context running on a core or not.
    pub running: bool,
    /// Context is halting its parent.
    pub vfork: bool,
    /// The current working directory.
    pub cwd: Vec<u8>,
    /// Pending events.
    pub events: VecDeque<Event>,
    /// The process environment.
    pub env: BTreeMap<Vec<u8>, Vec<u8>>,
    /// The capabilities the context holds, one set for each scheme.
    ///
    /// What a capability means is left to its scheme, which alone may change
    /// it. A set for `file:` might say which files can be read and written.
    pub capabilities: BTreeMap<Vec<u8>, CapabilitySet>,
    /// The resource table: the open resources, by descriptor.
    pub resources: Vec<Option<Resource>>,
}

impl Context {
    /// Create a new context: blocked, not running, owned by nobody, with no
    /// working directory, no events, no environment, no capabilities and no
    /// open resources. It is not scheduled until its creator makes it
    /// runnable.
    pub fn new(id: usize) -> (context: Context)
        ensures
            context.id == id,
            context.ppid == 0,
            context.ruid == 0,
            context.rgid == 0,
            context.euid == 0,
            context.egid == 0,
            context.status == Status::Blocked,
            !context.running,
            !context.vfork,
            context.cwd@ == Seq::<u8>::empty(),
            context.events@ == Seq::<Event>::empty(),
            context.env@ == Map::<Vec<u8>, Vec<u8>>::empty(),
            context.capabilities@ == Map::<Vec<u8>, CapabilitySet>::empty(),
            context.resources@ == Seq::<Option<Resource>>::empty(),
    {
        Context {
            id: id,
            ppid: 0,
            ruid: 0,
            rgid: 0,
            euid: 0,
            egid: 0,
            status: Status::Blocked,
            running: false,
            vfork: false,
            cwd: Vec::new(),
            events: VecDeque::new(),
            env: BTreeMap::new(),
            capabilities: BTreeMap::new(),
            resources: Vec::new(),
        }
    }

    /// Resolve `path` against the working directory of the context. Nothing
    /// is changed.
    pub fn canonicalize(&self, path: &[u8]) -> (canon: Vec<u8>)
        ensures
            canon@ == canonical(self.cwd@, path@),
    {
        canonicalize(self.cwd.as_slice(), path)
    }

    /// Add a resource to the lowest available slot, growing the table by one
    /// where every slot is taken and the table is below its maximum.
    ///
    /// Returns the descriptor, or `None` where the table is exhausted or the
    /// context has exited; the context is then left as it was.
    pub fn add_file(&mut self, file: Resource) -> (descriptor: Option<usize>)
        ensures
            *final(self) == (Context { resources: final(self).resources, ..*old(self) }),
            match descriptor {
                Some(i) => {
                    &&& !(old(self).status is Exited)
                    &&& slot_for(old(self).resources@) == Some(i as int)
                    &&& final(self).resources@ == install(old(self).resources@, i as int, file)
                },
                None => {
                    &&& old(self).status is Exited || slot_for(old(self).resources@) is None
                    &&& final(self).resources@ == old(self).resources@
                },
            },
    {
        if self.status.is_exited() {
            return None;
        }
        let len: usize = self.resources.len();
        let mut i: usize = 0;
        while i < len
            invariant
                len == self.resources.len(),
                0 <= i <= len,
                *self == *old(self),
                !(self.status is Exited),
                forall|j: int| 0 <= j < i ==> (#[trigger] self.resources@[j]) is Some,
            decreases len - i,
        {
            if self.resources[i].is_none() {
                proof {
                    lemma_first_free(self.resources@);
                }
                self.resources.set(i, Some(file));
                return Some(i);
            }
            i += 1;
        }
        proof {
            lemma_first_free(self.resources@);
        }
        if len < CONTEXT_MAX_RESOURCES {
            self.resources.push(Some(file));
            Some(len)
        } else {
            None
        }
    }

    /// The resource open under the descriptor `i`, if there is one.
    pub fn get_file(&self, i: usize) -> (file: Option<Resource>)
        ensures
            file == (if i < self.resources@.len() {
                self.resources@[i as int]
            } else {
                None
            }),
    {
        if i < self.resources.len() {
            self.resources[i]
        } else {
            None
        }
    }

    /// Close the descriptor `i`: empty its slot and return the resource that
    /// was open under it, if there was one. The table keeps its length, and
    /// every other descriptor stays as it is.
    pub fn remove_file(&mut self, i: usize) -> (file: Option<Resource>)
        ensures
            *final(self) == (Context { resources: final(self).resources, ..*old(self) }),
            i < old(self).resources@.len() ==> file == old(self).resources@[i as int]
                && final(self).resources@ == old(self).resources@.update(i as int, None),
            i >= old(self).resources@.len() ==> file is None && final(self).resources@ == old(
                self,
            ).resources@,
    {
        if i < self.resources.len() {
            let file = self.resources[i];
            self.resources.set(i, None);
            file
        } else {
            None
        }
    }

    /// Move the context to the state `next` where the lifecycle allows the
    /// step, and say whether it did; otherwise the context stays as it is.
    pub fn set_status(&mut self, next: Status) -> (moved: bool)
        ensures
            moved == old(self).status.may_become(next),
            moved ==> *final(self) == (Context { status: next, ..*old(self) }),
            !moved ==> *final(self) == *old(self),
    {
        if self.status.can_become(next) {
            self.status = next;
            true
        } else {
            false
        }
    }
}

} // verus!
