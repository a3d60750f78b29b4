use std::path::PathBuf;
use std::sync::mpsc::channel;

use conductor_reader::conductor::{Bank, Conductor};
use conductor_reader::viewer::{timing_hint, Main, Step};

fn small_conductor() -> Conductor {
    let mut s = vec![30u8, 100, 1];
    s.extend(std::iter::repeat(0).take(21 + 36));
    Conductor::from_bytes(&s).unwrap()
}

#[test]
fn new_viewer_awaits_a_file() {
    let m = Main::new();
    assert!(m.conductor_path().is_none());
    assert!(m.conductor.is_none());
    assert!(m.conductor_channel().is_none());
    assert_eq!(m.next_step(), Step::AwaitFile);
}

#[test]
fn viewer_steps_through_a_decode() {
    let mut m = Main::new();
    m.set_conductor_path(Some(PathBuf::from("music.cnd")));
    assert_eq!(m.conductor_path(), Some(&PathBuf::from("music.cnd")));
    assert_eq!(m.next_step(), Step::StartParse);
    let (tx, rx) = channel();
    m.start_parse(rx);
    assert_eq!(m.next_step(), Step::Poll);
    tx.send(small_conductor()).unwrap();
    let received = m.conductor_channel().unwrap().try_recv().unwrap();
    m.finish_parse(received);
    assert_eq!(m.next_step(), Step::Show);
    assert_eq!(m.conductor.as_ref().unwrap().bpm, 100);
}

#[test]
fn selecting_a_new_file_drops_the_old_state() {
    let mut m = Main::new();
    m.set_conductor_path(Some(PathBuf::from("a.cnd")));
    let (_tx, rx) = channel();
    m.start_parse(rx);
    m.finish_parse(small_conductor());
    m.set_conductor_path(Some(PathBuf::from("b.cnd")));
    assert_eq!(m.conductor_path(), Some(&PathBuf::from("b.cnd")));
    assert!(m.conductor.is_none());
    assert!(m.conductor_channel().is_none());
    assert_eq!(m.next_step(), Step::StartParse);
    m.set_conductor_path(None);
    assert_eq!(m.next_step(), Step::AwaitFile);
}

#[test]
fn timing_hints_name_standard_swings() {
    assert_eq!(timing_hint(30), "1/16th note");
    assert_eq!(timing_hint(60), "1/8th note");
    assert_eq!(timing_hint(120), "1/4th note");
    assert_eq!(timing_hint(0), "Custom");
    assert_eq!(timing_hint(31), "Custom");
}

#[test]
fn bank_display_names() {
    assert_eq!(Bank::Pikmin1SFX.display_name(), "Pikmin 1 SFX");
    assert_eq!(Bank::WatanabeSFX.display_name(), "Watanabe SFX");
    assert_eq!(Bank::TotakaSFX.display_name(), "Totaka SFX");
    assert_eq!(Bank::HikinoSFX.display_name(), "Hikino SFX");
    assert_eq!(Bank::WakaiInstruments.display_name(), "Wakai Instruments");
    assert_eq!(Bank::TotakaInstruments.display_name(), "Totaka Instruments");
}
