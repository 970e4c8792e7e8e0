use csgo_runtime::mem::process::{from_name, from_pid, Module, ProcessEntry, MAX_PATH};
use csgo_runtime::mem::Constructor;

fn entry(pid: u32, name: &str) -> ProcessEntry {
    let mut exe_file: Vec<u16> = name.encode_utf16().collect();
    exe_file.resize(MAX_PATH, 0);
    ProcessEntry { process_id: pid, exe_file }
}

#[test]
fn blank_entry_is_zeroed() {
    let e = <ProcessEntry as Constructor>::new();
    assert_eq!(e.process_id, 0);
    assert_eq!(e.exe_file.len(), 260);
    assert!(e.exe_file.iter().all(|&u| u == 0));
}

#[test]
fn from_name_picks_first_entry_containing_name() {
    let entries = vec![
        entry(4, "System"),
        entry(100, "steam.exe"),
        entry(200, "csgo.exe"),
        entry(300, "csgo.exe"),
    ];
    assert_eq!(from_name(&entries, "csgo.exe"), Some(200));
    assert_eq!(from_name(&entries, "go.ex"), Some(200));
    assert_eq!(from_name(&entries, "steam"), Some(100));
}

#[test]
fn from_name_without_match_is_none() {
    let entries = vec![entry(4, "System"), entry(100, "steam.exe")];
    assert_eq!(from_name(&entries, "csgo.exe"), None);
    assert_eq!(from_name(&Vec::new(), "csgo.exe"), None);
}

#[test]
fn from_name_is_case_sensitive() {
    let entries = vec![entry(7, "CSGO.EXE")];
    assert_eq!(from_name(&entries, "csgo.exe"), None);
}

#[test]
fn from_name_decodes_surrogate_pairs() {
    let entries = vec![entry(9, "game\u{1F3AE}.exe")];
    assert_eq!(from_name(&entries, "\u{1F3AE}.exe"), Some(9));
}

#[test]
fn from_name_reads_invalid_utf16_as_empty_name() {
    let bad = ProcessEntry { process_id: 11, exe_file: vec![0x0061, 0xD800, 0x0062] };
    let entries = vec![bad, entry(12, "ab")];
    assert_eq!(from_name(&entries, "a"), Some(12));
    assert_eq!(from_name(&entries, ""), Some(11));
}

#[test]
fn from_pid_reads_wow64_flag() {
    let p = from_pid(42, Some(1)).unwrap();
    assert_eq!(p.id, 42);
    assert!(p.is_wow64);
    let q = from_pid(43, Some(0)).unwrap();
    assert!(!q.is_wow64);
    assert!(from_pid(44, None).is_none());
}

#[test]
fn get_module_caches_first_found_module() {
    let mut p = from_pid(1, Some(0)).unwrap();
    assert!(p.cached_module("client.dll").is_none());
    let m = Module { base: 0x1000, size: 0x200 };
    let got = p.get_module("client.dll", Some(m)).unwrap();
    assert_eq!(got.base, 0x1000);
    let cached = p.cached_module("client.dll").unwrap();
    assert_eq!((cached.base, cached.size), (0x1000, 0x200));
    let other = Module { base: 0x9000, size: 0x10 };
    let again = p.get_module("client.dll", Some(other)).unwrap();
    assert_eq!(again.base, 0x1000);
}

#[test]
fn get_module_not_found_caches_nothing() {
    let mut p = from_pid(1, Some(0)).unwrap();
    assert!(p.get_module("engine.dll", None).is_none());
    assert!(p.cached_module("engine.dll").is_none());
    let m = Module { base: 0x5000, size: 0x100 };
    assert_eq!(p.get_module("engine.dll", Some(m)).unwrap().base, 0x5000);
    assert!(p.cached_module("client.dll").is_none());
}
