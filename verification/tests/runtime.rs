use csgo_runtime::hazedumper::{Haze, Netvars, Signatures};
use csgo_runtime::mem::process::from_pid;
use csgo_runtime::player::{EntityPlayer, Player};
use csgo_runtime::runtime::{CsgoRuntime, RemotePtr, ScanAction};
use std::collections::HashMap;

fn runtime() -> CsgoRuntime {
    CsgoRuntime {
        process: from_pid(1, Some(1)).unwrap(),
        client: 0x1000_0000,
        engine: 0x2000_0000,
        hazedumper: Haze {
            signatures: Signatures { dwEntityList: Some(0x4D00), dwForceJump: Some(0x5100) },
            netvars: Netvars {
                m_vecOrigin: Some(0x138),
                m_bSpotted: Some(0x93D),
                m_iHealth: Some(0x100),
                m_iTeamNum: Some(0xF4),
            },
        },
    }
}

#[test]
fn get_address_uses_client_or_engine_base() {
    let rt = runtime();
    assert_eq!(rt.get_address(0x10, true), 0x1000_0010);
    assert_eq!(rt.get_address(0x10, false), 0x2000_0010);
}

#[test]
fn read_ptr_null_is_none() {
    let rt = runtime();
    assert!(rt.read_ptr::<u32>(0).is_none());
    assert_eq!(rt.read_ptr::<u32>(0x1234).unwrap().address(), 0x1234);
}

#[test]
fn remote_ptr_add_and_cast() {
    let rt = runtime();
    let p: RemotePtr<usize> = RemotePtr::new(&rt, 0x500);
    assert_eq!(p.add(0x20).address(), 0x520);
    assert_eq!(p.add(0x20).cast::<u8>().address(), 0x520);
    assert_eq!(p.clone().address(), 0x500);
}

#[test]
fn entry_offset_of_index() {
    let rt = runtime();
    assert_eq!(EntityPlayer::entry_offset(&rt, 0), None);
    assert_eq!(EntityPlayer::entry_offset(&rt, -3), None);
    assert_eq!(EntityPlayer::entry_offset(&rt, 1), Some(0x4D10));
    assert_eq!(EntityPlayer::entry_offset(&rt, 2), Some(0x4D20));
}

#[test]
fn entity_get_needs_positive_index_and_pointer() {
    let rt = runtime();
    assert!(EntityPlayer::get(&rt, 0, 0x3000).is_none());
    assert!(EntityPlayer::get(&rt, 5, 0).is_none());
    let e = EntityPlayer::get(&rt, 5, 0x3000).unwrap();
    assert_eq!(e.get_base_ptr().address(), 0x3000);
}

#[test]
fn player_field_addresses() {
    let rt = runtime();
    let e = EntityPlayer::get(&rt, 1, 0x3000).unwrap();
    assert_eq!(e.health_address(), 0x3100);
    assert_eq!(e.get_xy(), (0x3138, 0x313C));
    assert_eq!(e.team_address(), 0x30F4);
    let w = e.set_spotted();
    assert_eq!((w.address, w.value), (0x393D, 2));
    let (a, b) = e.force_jump();
    assert_eq!((a.address, a.value), (0x1000_5100, 5));
    assert_eq!((b.address, b.value), (0x1000_5100, 4));
}

#[test]
fn player_health_and_team_values() {
    let rt = runtime();
    let e = EntityPlayer::get(&rt, 1, 0x3000).unwrap();
    assert!(e.is_alive(0));
    assert!(e.is_alive(100));
    assert!(!e.is_alive(101));
    assert!(!e.is_alive(u32::MAX));
    assert_eq!(e.get_health(57), 57);
    assert_eq!(e.get_team(3), 3);
    assert_eq!(e.get_team(-1), usize::MAX);
}

fn run_scan(rt: &CsgoRuntime, memory: &HashMap<usize, u32>) -> (Vec<usize>, Vec<usize>) {
    let mut scan = rt.get_entities();
    let mut reads = Vec::new();
    loop {
        match scan.next_action() {
            ScanAction::ReadEntityPointer { address, .. } | ScanAction::ReadHealth { address } => {
                reads.push(address);
                scan.report(*memory.get(&address).unwrap_or(&0));
            }
            ScanAction::Finished => break,
        }
    }
    let found = scan.finish().iter().map(|e| e.get_base_ptr().address()).collect();
    (found, reads)
}

#[test]
fn scan_keeps_living_entities_in_order() {
    let rt = runtime();
    let slot = |i: usize| 0x1000_0000 + 0x4D00 + i * 16;
    let mut memory = HashMap::new();
    memory.insert(slot(1), 0x7000u32);
    memory.insert(0x7100, 100);
    memory.insert(slot(2), 0x7200);
    memory.insert(0x7300, 0);
    memory.insert(slot(5), 0x7400);
    memory.insert(0x7500, 250);
    memory.insert(slot(63), 0x7600);
    memory.insert(0x7700, 42);
    memory.insert(slot(64), 0x7800);
    memory.insert(0x7900, 42);
    let (found, reads) = run_scan(&rt, &memory);
    assert_eq!(found, vec![0x7000, 0x7200, 0x7600]);
    assert_eq!(reads.len(), 63 + 4);
    assert_eq!(reads[0], slot(1));
    assert_eq!(reads[1], 0x7100);
    assert!(!reads.contains(&slot(64)));
    assert!(!reads.contains(&slot(0)));
}

#[test]
fn scan_of_empty_list_finds_nothing() {
    let rt = runtime();
    let (found, reads) = run_scan(&rt, &HashMap::new());
    assert!(found.is_empty());
    assert_eq!(reads.len(), 63);
}
