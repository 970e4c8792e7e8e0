//! The attached game: its module bases and offsets, typed remote pointers,
//! and the scan over the entity list.
use crate::hazedumper::Haze;
use crate::mem::process::Process;
use crate::player::{EntityPlayer, Player};
use std::marker::PhantomData;
use vstd::prelude::*;

verus! {

/// The attached game process with the bases of its two main modules and
/// the offsets of the running build.
pub struct CsgoRuntime {
    pub process: Process,
    pub client: usize,
    pub engine: usize,
    pub hazedumper: Haze,
}

impl CsgoRuntime {
    /// The address of `offset` within `client.dll` (`client`) or
    /// `engine.dll`.
    pub open spec fn address_of(&self, offset: usize, client: bool) -> int {
        if client {
            self.client + offset
        } else {
            self.engine + offset
        }
    }

    /// The address of `offset` within `client.dll` (`client`) or
    /// `engine.dll`.
    pub fn get_address(&self, offset: usize, client: bool) -> (a: usize)
        requires
            self.address_of(offset, client) <= usize::MAX,
        ensures
            a == self.address_of(offset, client),
            client ==> a == self.client + offset,
            !client ==> a == self.engine + offset,
    {
        if client {
            self.client + offset
        } else {
            self.engine + offset
        }
    }

    /// The pointer stored at a module offset, given the 32-bit value read at
    /// `get_address(offset, client)`: a null value is no pointer.
    pub fn read_ptr<T>(&self, address_value: u32) -> (r: Option<RemotePtr<'_, T>>)
        ensures
            r is None <==> address_value == 0,
            r matches Some(p) ==> p@ == address_value as usize && p.runtime() == self,
    {
        if address_value == 0 {
            None
        } else {
            Some(RemotePtr { address: address_value as usize, runtime: self, inner: PhantomData })
        }
    }
}

/// A module-relative address is the module's base plus the offset, for
/// `client.dll` and `engine.dll` alike.
pub proof fn lemma_address_is_base_plus_offset(runtime: &CsgoRuntime, offset: usize)
    ensures
        runtime.address_of(offset, true) == runtime.client as int + offset as int,
        runtime.address_of(offset, false) == runtime.engine as int + offset as int,
{
}

/// A typed address in the game's memory.
pub struct RemotePtr<'a, T> {
    address: usize,
    runtime: &'a CsgoRuntime,
    inner: PhantomData<T>,
}

impl<'a, T> View for RemotePtr<'a, T> {
    type V = usize;

    /// The address pointed to.
    closed spec fn view(&self) -> usize {
        self.address
    }
}

impl<'a, T> Clone for RemotePtr<'a, T> {
    fn clone(&self) -> (p: Self)
        ensures
            p@ == self@,
            p.runtime() == self.runtime(),
    {
        RemotePtr { address: self.address, runtime: self.runtime, inner: PhantomData }
    }
}

impl<'a, T> RemotePtr<'a, T> {
    /// The runtime whose process the pointer points into.
    pub closed spec fn runtime(&self) -> &'a CsgoRuntime {
        self.runtime
    }

    /// A pointer into the runtime's process.
    pub fn new(runtime: &'a CsgoRuntime, address: usize) -> (p: Self)
        ensures
            p@ == address,
            p.runtime() == runtime,
    {
        RemotePtr { address, runtime, inner: PhantomData }
    }

    /// The address pointed to.
    pub fn address(&self) -> (a: usize)
        ensures
            a == self@,
    {
        self.address
    }

    /// The runtime whose process the pointer points into.
    pub fn get_runtime(&self) -> (r: &'a CsgoRuntime)
        ensures
            r == self.runtime(),
    {
        self.runtime
    }

    /// The pointer `offset` bytes further.
    pub fn add(&self, offset: usize) -> (p: Self)
        requires
            self@ + offset <= usize::MAX,
        ensures
            p@ == self@ + offset,
            p.runtime() == self.runtime(),
    {
        RemotePtr { address: self.address + offset, runtime: self.runtime, inner: PhantomData }
    }

    /// The same address, read as another type.
    pub fn cast<R>(&self) -> (p: RemotePtr<'a, R>)
        ensures
            p@ == self@,
            p.runtime() == self.runtime(),
    {
        RemotePtr { address: self.address, runtime: self.runtime, inner: PhantomData }
    }
}

/// The entities that a scan keeps, in index order: those whose slot held a
/// non-null pointer and whose health is 0 to 100. Each observation is the
/// entity's base address (0 for an empty slot) and its health.
pub open spec fn alive_entities(observed: Seq<(usize, u32)>) -> Seq<usize>
    decreases observed.len(),
{
    if observed.len() == 0 {
        Seq::empty()
    } else {
        let prev = alive_entities(observed.drop_last());
        let last = observed.last();
        if last.0 != 0 && last.1 <= 100 {
            prev.push(last.0)
        } else {
            prev
        }
    }
}

/// An observation of a living entity: a non-null slot and a health of 0 to
/// 100.
pub open spec fn is_living(o: (usize, u32)) -> bool {
    o.0 != 0 && o.1 <= 100
}

/// The entities a scan keeps are exactly the living observations, in the
/// order of their slots.
pub proof fn lemma_alive_entities_are_the_living(observed: Seq<(usize, u32)>)
    ensures
        alive_entities(observed) == observed.filter(|o: (usize, u32)| is_living(o)).map_values(
            |o: (usize, u32)| o.0,
        ),
    decreases observed.len(),
{
    reveal_with_fuel(Seq::filter, 1);
    if observed.len() > 0 {
        let init = observed.drop_last();
        lemma_alive_entities_are_the_living(init);
        let f = init.filter(|o: (usize, u32)| is_living(o));
        if is_living(observed.last()) {
            assert(f.push(observed.last()).map_values(|o: (usize, u32)| o.0) =~= f.map_values(
                |o: (usize, u32)| o.0,
            ).push(observed.last().0));
        }
    }
}

/// What the scan needs read next from the game's memory.
pub enum ScanAction {
    /// The 32-bit pointer in the entity-list slot of `index`.
    ReadEntityPointer { index: i32, address: usize },
    /// The 32-bit health of the entity whose pointer was just read.
    ReadHealth { address: usize },
    /// Every slot has been visited.
    Finished,
}

impl CsgoRuntime {
    /// The offsets a scan of the entity list uses are known, and the slots
    /// of the entities 1 to 63 have addresses.
    pub open spec fn scan_ready(&self) -> bool {
        &&& self.hazedumper.signatures.dwEntityList is Some
        &&& self.hazedumper.netvars.m_iHealth is Some
        &&& self.client + self.hazedumper.signatures.dwEntityList->0 + 63 * 16 <= usize::MAX
    }

    /// The address of the entity-list slot of `index`.
    pub open spec fn slot_address(&self, index: int) -> int {
        self.client + self.hazedumper.signatures.dwEntityList->0 + index * 16
    }

    /// The address of the health of the entity at `base`.
    pub open spec fn health_address_of(&self, base: int) -> int {
        base + self.hazedumper.netvars.m_iHealth->0
    }

    /// Starts a scan of the entities 1 to 63 for the living players.
    pub fn get_entities<'a>(&'a self) -> (s: EntityScan<'a>)
        requires
            self.scan_ready(),
        ensures
            s.wf(),
            s.runtime() == self,
            s.next_index() == 1,
            s.pending() is None,
            s.observed() == Seq::<(usize, u32)>::empty(),
    {
        let s = EntityScan {
            runtime: self,
            next_index: 1,
            pending: None,
            alive: Vec::new(),
            observed: Ghost(Seq::empty()),
        };
        assert(s.alive@.map_values(|e: EntityPlayer<'a>| e@) =~= Seq::<usize>::empty());
        s
    }
}

/// A scan over the entity list: visits the entities 1 to 63 in order and
/// keeps those that are alive. The caller performs each `next_action` read
/// and hands the value back with `report`.
pub struct EntityScan<'a> {
    runtime: &'a CsgoRuntime,
    next_index: i32,
    pending: Option<EntityPlayer<'a>>,
    alive: Vec<EntityPlayer<'a>>,
    observed: Ghost<Seq<(usize, u32)>>,
}

impl<'a> EntityScan<'a> {
    /// The runtime being scanned.
    pub closed spec fn runtime(&self) -> &'a CsgoRuntime {
        self.runtime
    }

    /// The index of the slot being visited (64 once all are visited).
    pub closed spec fn next_index(&self) -> int {
        self.next_index as int
    }

    /// The base address of the entity whose health is awaited.
    pub closed spec fn pending(&self) -> Option<usize> {
        match self.pending {
            Some(e) => Some(e@),
            None => None,
        }
    }

    /// The observations of the slots visited so far.
    pub closed spec fn observed(&self) -> Seq<(usize, u32)> {
        self.observed@
    }

    /// The entities kept so far, by base address.
    pub closed spec fn found(&self) -> Seq<usize> {
        self.alive@.map_values(|e: EntityPlayer<'a>| e@)
    }

    /// Every slot has been visited.
    pub open spec fn is_finished(&self) -> bool {
        self.pending() is None && self.next_index() == 64
    }

    /// An upper bound on the reads still to come.
    pub open spec fn steps_left(&self) -> int {
        2 * (64 - self.next_index()) - (if self.pending() is Some {
            1int
        } else {
            0
        })
    }

    /// The scan's invariant: one observation per visited slot, and the kept
    /// entities are the living ones among them.
    pub closed spec fn wf(&self) -> bool {
        &&& self.runtime.scan_ready()
        &&& 1 <= self.next_index <= 64
        &&& self.observed@.len() == self.next_index - 1
        &&& self.pending matches Some(e) ==> {
            &&& self.next_index < 64
            &&& e@ != 0
            &&& e.base_address() == e@
            &&& e.runtime_of() == self.runtime
            &&& self.runtime.health_address_of(e@ as int) <= usize::MAX
        }
        &&& self.found() == alive_entities(self.observed@)
        &&& forall|i: int|
            0 <= i < self.alive@.len() ==> (#[trigger] self.alive@[i]).base_address()
                == self.alive@[i]@ && self.alive@[i].runtime_of() == self.runtime
    }

    /// The read the scan needs next.
    pub fn next_action(&self) -> (a: ScanAction)
        requires
            self.wf(),
        ensures
            match self.pending() {
                Some(base) => a == (ScanAction::ReadHealth {
                    address: self.runtime().health_address_of(base as int) as usize,
                }),
                None => if self.next_index() < 64 {
                    a == (ScanAction::ReadEntityPointer {
                        index: self.next_index() as i32,
                        address: self.runtime().slot_address(self.next_index()) as usize,
                    })
                } else {
                    a == ScanAction::Finished
                },
            },
    {
        match &self.pending {
            Some(e) => ScanAction::ReadHealth { address: e.health_address() },
            None => {
                if self.next_index < 64 {
                    let offset = EntityPlayer::entry_offset(self.runtime, self.next_index).unwrap();
                    ScanAction::ReadEntityPointer {
                        index: self.next_index,
                        address: self.runtime.get_address(offset, true),
                    }
                } else {
                    ScanAction::Finished
                }
            },
        }
    }

    /// Hands the scan the 32-bit value that its `next_action` read: the
    /// slot's pointer, or the pending entity's health.
    pub fn report(&mut self, value: u32)
        requires
            old(self).wf(),
            !old(self).is_finished(),
            old(self).pending() is None && value != 0 ==> old(self).runtime().health_address_of(
                value as int,
            ) <= usize::MAX,
        ensures
            final(self).wf(),
            final(self).runtime() == old(self).runtime(),
            final(self).steps_left() < old(self).steps_left(),
            match old(self).pending() {
                Some(base) => {
                    &&& final(self).pending() is None
                    &&& final(self).next_index() == old(self).next_index() + 1
                    &&& final(self).observed() == old(self).observed().push((base, value))
                },
                None => if value == 0 {
                    &&& final(self).pending() is None
                    &&& final(self).next_index() == old(self).next_index() + 1
                    &&& final(self).observed() == old(self).observed().push((0usize, 0u32))
                } else {
                    &&& final(self).pending() == Some(value as usize)
                    &&& final(self).next_index() == old(self).next_index()
                    &&& final(self).observed() == old(self).observed()
                },
            },
    {
        let ghost old_found = self.found();
        let ghost old_obs = self.observed@;
        match self.pending.take() {
            Some(e) => {
                let ghost base = e@;
                if e.is_alive(value) {
                    self.alive.push(e);
                    assert(self.found() =~= old_found.push(base));
                } else {
                    assert(self.found() =~= old_found);
                }
                self.observed = Ghost(old_obs.push((base, value)));
                assert(self.observed@.drop_last() =~= old_obs);
                self.next_index = self.next_index + 1;
            },
            None => {
                match EntityPlayer::get(self.runtime, self.next_index, value) {
                    Some(e) => {
                        self.pending = Some(e);
                    },
                    None => {
                        self.observed = Ghost(old_obs.push((0usize, 0u32)));
                        assert(self.observed@.drop_last() =~= old_obs);
                        self.next_index = self.next_index + 1;
                    },
                }
            },
        }
    }

    /// Gets entities: the living players among the entities 1 to 63, in
    /// index order.
    pub fn finish(self) -> (r: Vec<EntityPlayer<'a>>)
        requires
            self.wf(),
            self.is_finished(),
        ensures
            self.observed().len() == 63,
            r@.map_values(|e: EntityPlayer<'a>| e@) == alive_entities(self.observed()),
            forall|i: int|
                0 <= i < r@.len() ==> (#[trigger] r@[i]).base_address() == r@[i]@
                    && r@[i].runtime_of() == self.runtime(),
    {
        self.alive
    }
}

} // verus!
