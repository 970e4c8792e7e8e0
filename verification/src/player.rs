//! Players: entities of the entity list, and the addresses and values that
//! reading or writing their fields involves.
use crate::runtime::{CsgoRuntime, RemotePtr};
use vstd::prelude::*;

verus! {

/// A value to be written at an address of the game's memory.
pub struct MemoryWrite {
    pub address: usize,
    pub value: i32,
}

/// Something in the game with a base address: the fields of a player are at
/// the netvar offsets from that base.
pub trait Player<'a> {
    /// The player's base address.
    spec fn base_address(&self) -> usize;

    /// The runtime the player belongs to.
    spec fn runtime_of(&self) -> &'a CsgoRuntime;

    /// Returns the base entity pointer.
    fn get_base_ptr(&self) -> (p: RemotePtr<'a, usize>)
        ensures
            p@ == self.base_address(),
            p.runtime() == self.runtime_of(),
    ;

    /// Returns the runtime reference.
    fn get_runtime(&self) -> (r: &'a CsgoRuntime)
        ensures
            r == self.runtime_of(),
    ;

    /// The address of the player's health (`m_iHealth`), a 32-bit value.
    fn health_address(&self) -> (a: usize)
        requires
            self.runtime_of().hazedumper.netvars.m_iHealth is Some,
            self.base_address() + self.runtime_of().hazedumper.netvars.m_iHealth->0
                <= usize::MAX,
        ensures
            a == self.base_address() + self.runtime_of().hazedumper.netvars.m_iHealth->0,
    {
        let offset = self.get_runtime().hazedumper.netvars.m_iHealth.unwrap() as usize;
        self.get_base_ptr().add(offset).cast::<u32>().address()
    }

    /// Returns player health, given the value read at `health_address`.
    fn get_health(&self, health_value: u32) -> (h: usize)
        ensures
            h == health_value,
    {
        health_value as usize
    }

    /// Returns player alive state: a health of 0 to 100, given the value read
    /// at `health_address`.
    fn is_alive(&self, health_value: u32) -> (b: bool)
        ensures
            b == (health_value <= 100),
    {
        let health = self.get_health(health_value);
        health <= 100
    }

    /// The addresses of the x and y coordinates of the player's origin
    /// (`m_vecOrigin`), two consecutive 32-bit floats.
    fn get_xy(&self) -> (xy: (usize, usize))
        requires
            self.runtime_of().hazedumper.netvars.m_vecOrigin is Some,
            self.base_address() + self.runtime_of().hazedumper.netvars.m_vecOrigin->0 + 8
                <= usize::MAX,
        ensures
            xy.0 == self.base_address() + self.runtime_of().hazedumper.netvars.m_vecOrigin->0,
            xy.1 == xy.0 + 4,
    {
        let ent_addr = self.get_base_ptr().address();
        let origin_address = ent_addr
            + self.get_runtime().hazedumper.netvars.m_vecOrigin.unwrap() as usize;
        let y_address = origin_address + 4;
        (origin_address, y_address)
    }

    /// Marks the player as spotted: the value 2 written at `m_bSpotted`.
    fn set_spotted(&self) -> (w: MemoryWrite)
        requires
            self.runtime_of().hazedumper.netvars.m_bSpotted is Some,
            self.base_address() + self.runtime_of().hazedumper.netvars.m_bSpotted->0
                <= usize::MAX,
        ensures
            w.address == self.base_address()
                + self.runtime_of().hazedumper.netvars.m_bSpotted->0,
            w.value == 2,
    {
        let address = self.get_base_ptr().address()
            + self.get_runtime().hazedumper.netvars.m_bSpotted.unwrap() as usize;
        MemoryWrite { address, value: 2 }
    }

    /// The address of the player's team number (`m_iTeamNum`), a 32-bit
    /// signed value.
    fn team_address(&self) -> (a: usize)
        requires
            self.runtime_of().hazedumper.netvars.m_iTeamNum is Some,
            self.base_address() + self.runtime_of().hazedumper.netvars.m_iTeamNum->0
                <= usize::MAX,
        ensures
            a == self.base_address() + self.runtime_of().hazedumper.netvars.m_iTeamNum->0,
    {
        let offset = self.get_runtime().hazedumper.netvars.m_iTeamNum.unwrap() as usize;
        self.get_base_ptr().add(offset).cast::<i32>().address()
    }

    /// Returns player team value, given the value read at `team_address`.
    fn get_team(&self, team_value: i32) -> (t: usize)
        ensures
            t == team_value as usize,
    {
        team_value as usize
    }

    /// Makes the local player jump: 5 then 4 written at `dwForceJump` of
    /// `client.dll`, the second write a moment after the first.
    fn force_jump(&self) -> (w: (MemoryWrite, MemoryWrite))
        requires
            self.runtime_of().hazedumper.signatures.dwForceJump is Some,
            self.runtime_of().client + self.runtime_of().hazedumper.signatures.dwForceJump->0
                <= usize::MAX,
        ensures
            w.0.address == self.runtime_of().client
                + self.runtime_of().hazedumper.signatures.dwForceJump->0,
            w.0.value == 5,
            w.1.address == w.0.address,
            w.1.value == 4,
    {
        let runtime = self.get_runtime();
        let address = runtime.get_address(
            runtime.hazedumper.signatures.dwForceJump.unwrap() as usize,
            true,
        );
        (MemoryWrite { address, value: 5 }, MemoryWrite { address, value: 4 })
    }
}

/// An entity of the entity list.
pub struct EntityPlayer<'a> {
    runtime: &'a CsgoRuntime,
    inner: RemotePtr<'a, usize>,
}

impl<'a> View for EntityPlayer<'a> {
    type V = usize;

    /// The entity's base address.
    closed spec fn view(&self) -> usize {
        self.inner@
    }
}

impl<'a> Player<'a> for EntityPlayer<'a> {
    closed spec fn base_address(&self) -> usize {
        self.inner@
    }

    closed spec fn runtime_of(&self) -> &'a CsgoRuntime {
        self.runtime
    }

    fn get_base_ptr(&self) -> (p: RemotePtr<'a, usize>) {
        RemotePtr::new(self.runtime, self.inner.address())
    }

    fn get_runtime(&self) -> (r: &'a CsgoRuntime) {
        self.runtime
    }
}

impl<'a> EntityPlayer<'a> {
    /// The offset in `client.dll` of the entity-list slot of `index`.
    pub open spec fn slot_offset(runtime: &CsgoRuntime, index: int) -> int {
        runtime.hazedumper.signatures.dwEntityList->0 + index * 16
    }

    /// The offset in `client.dll` where the pointer to the entity `index` is
    /// stored; entity indices start at 1.
    pub fn entry_offset(runtime: &CsgoRuntime, index: i32) -> (r: Option<usize>)
        requires
            runtime.hazedumper.signatures.dwEntityList is Some,
            index > 0 ==> Self::slot_offset(runtime, index as int) <= usize::MAX,
        ensures
            r is None <==> index <= 0,
            r matches Some(o) ==> o == Self::slot_offset(runtime, index as int),
    {
        if index <= 0 {
            return None;
        }
        Some(runtime.hazedumper.signatures.dwEntityList.unwrap() as usize + (index as usize * 16))
    }

    /// Returns entity player instance by index, given the 32-bit pointer read
    /// at the entity's slot (`entry_offset` in `client.dll`): no entity for an
    /// index below 1 or a null pointer.
    pub fn get(runtime: &'a CsgoRuntime, index: i32, pointer_value: u32) -> (r: Option<
        EntityPlayer<'a>,
    >)
        ensures
            r is None <==> (index <= 0 || pointer_value == 0),
            r matches Some(e) ==> {
                &&& e@ == pointer_value as usize
                &&& e.base_address() == e@
                &&& e.runtime_of() == runtime
            },
    {
        if index <= 0 {
            return None;
        }
        let inner = runtime.read_ptr::<usize>(pointer_value)?;
        Some(EntityPlayer { runtime, inner })
    }
}

} // verus!
