use csgo_runtime::hazedumper::{init_hazedumper, json_offset};

const SAMPLE: &str = r#"{
  "timestamp": 1620000000,
  "signatures": {
    "dwEntityList": 81234567,
    "dwForceJump" :	   86400
  },
  "netvars": {
    "m_iHealth": 256,
    "m_iTeamNum": 244,
    "m_vecOrigin": 312,
    "m_bSpotted": 2365
  }
}"#;

#[test]
fn json_offset_reads_entries() {
    assert_eq!(json_offset(SAMPLE, "dwEntityList"), Some(81234567));
    assert_eq!(json_offset(SAMPLE, "dwForceJump"), Some(86400));
    assert_eq!(json_offset(SAMPLE, "m_iHealth"), Some(256));
}

#[test]
fn json_offset_missing_or_malformed_is_none() {
    assert_eq!(json_offset(SAMPLE, "dwLocalPlayer"), None);
    assert_eq!(json_offset(r#"{"a": "12"}"#, "a"), None);
    assert_eq!(json_offset(r#"{"a" 12}"#, "a"), None);
    assert_eq!(json_offset("", "a"), None);
}

#[test]
fn json_offset_first_entry_wins() {
    assert_eq!(json_offset(r#"{"a": x, "a": 7, "a": 9}"#, "a"), Some(7));
}

#[test]
fn json_offset_too_large_is_none() {
    assert_eq!(json_offset(r#"{"a": 4294967295}"#, "a"), Some(u32::MAX));
    assert_eq!(json_offset(r#"{"a": 4294967296, "a": 1}"#, "a"), None);
}

#[test]
fn json_offset_takes_all_digits() {
    assert_eq!(json_offset("\"a\":\u{3000}0012x", "a"), Some(12));
}

#[test]
fn init_hazedumper_fills_all_offsets() {
    let h = init_hazedumper(SAMPLE);
    assert_eq!(h.signatures.dwEntityList, Some(81234567));
    assert_eq!(h.signatures.dwForceJump, Some(86400));
    assert_eq!(h.netvars.m_vecOrigin, Some(312));
    assert_eq!(h.netvars.m_bSpotted, Some(2365));
    assert_eq!(h.netvars.m_iHealth, Some(256));
    assert_eq!(h.netvars.m_iTeamNum, Some(244));
    let empty = init_hazedumper("{}");
    assert_eq!(empty.netvars.m_iHealth, None);
}
