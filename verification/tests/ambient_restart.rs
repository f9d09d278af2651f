use sndlab::ambient::AmbientTable;
use sndlab::ambient_start::{take_for_crossfade, take_for_restart};
use sndlab::error::Error;
use sndlab::patches::{PatchRole, PatchTable};

fn patches() -> PatchTable<u32> {
    let mut t = PatchTable::new();
    t.register("wind".to_string(), PatchRole::Ambient, 7);
    t
}

#[test]
fn restart_takes_out_the_running_instance() {
    let p = patches();
    let mut a: AmbientTable<&str> = AmbientTable::new();
    a.insert("wind".to_string(), "old handle");
    let (patch, running) = take_for_restart(&p, &mut a, "wind").unwrap();
    assert_eq!(patch.source, 7);
    assert_eq!(running, Some("old handle"));
    assert!(!a.contains("wind"));
}

#[test]
fn restart_of_unknown_patch_leaves_ambients_running() {
    let p = patches();
    let mut a: AmbientTable<&str> = AmbientTable::new();
    a.insert("rain".to_string(), "rain handle");
    match take_for_restart(&p, &mut a, "rain") {
        Err(Error::UnknownPatch(n)) => assert_eq!(n, "rain"),
        other => panic!("unexpected: {:?}", other.map(|(e, h)| (e.name.clone(), h))),
    }
    assert!(a.contains("rain"));
}

#[test]
fn crossfade_takes_out_the_instance_even_for_unknown_patch() {
    let p = patches();
    let mut a: AmbientTable<&str> = AmbientTable::new();
    a.insert("rain".to_string(), "rain handle");
    let (running, patch) = take_for_crossfade(&p, &mut a, "rain");
    assert_eq!(running, Some("rain handle"));
    assert!(matches!(patch, Err(Error::UnknownPatch(_))));
    assert!(!a.contains("rain"));
    let (running, patch) = take_for_crossfade(&p, &mut a, "wind");
    assert_eq!(running, None);
    assert_eq!(patch.unwrap().source, 7);
}
