use sndlab::ambient::AmbientTable;
use sndlab::error::Error;
use sndlab::patches::{parse_noise_kind, parse_role, NoiseKind, PatchRole, PatchTable};

#[test]
fn roles_parse() {
    assert_eq!(parse_role("one_shot"), Ok(PatchRole::OneShot));
    assert_eq!(parse_role("ambient"), Ok(PatchRole::Ambient));
    assert_eq!(
        parse_role("loop"),
        Err("patch: unknown role 'loop' — expected 'one_shot' or 'ambient'".to_string())
    );
}

#[test]
fn noise_kinds_parse() {
    assert_eq!(parse_noise_kind("white"), Ok(NoiseKind::White));
    assert_eq!(parse_noise_kind("pink"), Ok(NoiseKind::Pink));
    assert_eq!(parse_noise_kind("brown"), Ok(NoiseKind::Brown));
    assert_eq!(
        parse_noise_kind("blue"),
        Err("noise: unknown kind 'blue' — expected 'white', 'pink', or 'brown'".to_string())
    );
    assert!(parse_noise_kind("White").is_err());
}

#[test]
fn table_keeps_first_registration_order_and_latest_source() {
    let mut t: PatchTable<u32> = PatchTable::new();
    t.register("ping".to_string(), PatchRole::OneShot, 1);
    t.register("hum".to_string(), PatchRole::Ambient, 2);
    t.register("ping".to_string(), PatchRole::Ambient, 3);
    assert_eq!(t.len(), 2);
    let names: Vec<&str> = t.entries().iter().map(|e| e.name.as_str()).collect();
    assert_eq!(names, vec!["ping", "hum"]);
    let ping = t.get("ping").unwrap();
    assert_eq!(ping.source, 3);
    assert_eq!(ping.role, PatchRole::Ambient);
    assert_eq!(t.take_notices(), vec!["patch 'ping' redefined".to_string()]);
    assert!(t.take_notices().is_empty());
    assert_eq!(t.len(), 2);
}

#[test]
fn require_reports_unknown_patch() {
    let mut t: PatchTable<()> = PatchTable::new();
    t.register("a".to_string(), PatchRole::OneShot, ());
    assert!(t.require("a").is_ok());
    assert!(t.get("b").is_none());
    match t.require("b") {
        Err(Error::UnknownPatch(n)) => assert_eq!(n, "b"),
        other => panic!("unexpected {other:?}"),
    }
}

#[test]
fn ambient_table_tracks_running_handles() {
    let mut t: AmbientTable<u8> = AmbientTable::new();
    assert!(!t.contains("hum"));
    assert_eq!(t.insert("hum".to_string(), 1), None);
    assert_eq!(t.insert("wash".to_string(), 2), None);
    assert!(t.contains("hum"));
    assert_eq!(t.names(), vec!["hum".to_string(), "wash".to_string()]);
    assert_eq!(t.insert("hum".to_string(), 3), Some(1));
    assert_eq!(t.names(), vec!["wash".to_string(), "hum".to_string()]);
    assert_eq!(t.remove("hum"), Some(3));
    assert_eq!(t.remove("hum"), None);
    assert!(!t.contains("hum"));
    let drained: Vec<u8> = t.drain().into_iter().map(|e| e.handle).collect();
    assert_eq!(drained, vec![2]);
    assert!(t.names().is_empty());
}
