use map2::devices::{
    compile_pattern, compile_patterns, filter_fd_list, path_matches_any, pattern_matches,
    process_input, DeviceInfo,
};
use map2::reader::{reader_step, ReadOutcome, ReaderAction, ReaderMode};
use map2::keys::{InputEvent, EV_KEY};

#[test]
fn pattern_compile_and_match() {
    let cp = compile_pattern("event[0-9]+", false).unwrap();
    assert!(pattern_matches(&cp, "/dev/input/event3"));
    assert!(!pattern_matches(&cp, "/dev/input/mouse0"));
    assert!(compile_pattern("(", false).is_none());
}

#[test]
fn case_insensitive_patterns() {
    let cp = compile_pattern("trackball", true).unwrap();
    assert!(pattern_matches(&cp, "Kensington TrackBall"));
    let cs = compile_pattern("trackball", false).unwrap();
    assert!(!pattern_matches(&cs, "Kensington TrackBall"));
}

#[test]
fn any_pattern_selects_device_paths() {
    let lines = vec!["event1$".to_string(), "mouse".to_string()];
    let ps = compile_patterns(&lines).unwrap();
    assert!(path_matches_any(&ps, "/dev/input/event1"));
    assert!(path_matches_any(&ps, "/dev/input/mouse0"));
    assert!(!path_matches_any(&ps, "/dev/input/event12"));
}

#[test]
fn filter_matches_paths_and_identity_fields() {
    let paths = vec![
        "/dev/input/event0".to_string(),
        "/dev/input/event1".to_string(),
        "/dev/input/event2".to_string(),
    ];
    let infos = vec![
        None,
        Some(DeviceInfo {
            name: "USB Keyboard".to_string(),
            phys: "usb-0000:00:14.0-2/input0".to_string(),
            uniq: "None".to_string(),
        }),
        None,
    ];
    // Matches event1 by its device name, case-insensitively.
    let kept = filter_fd_list(&paths, &infos, "keyboard").unwrap();
    assert_eq!(kept, vec![1]);
    // Matches every path by the path itself.
    let kept = filter_fd_list(&paths, &infos, "event").unwrap();
    assert_eq!(kept, vec![0, 1, 2]);
    // An invalid pattern rejects the call.
    assert!(filter_fd_list(&paths, &infos, "(").is_none());
}

#[test]
fn prompt_keystrokes() {
    let mut filter: Vec<char> = Vec::new();
    process_input('k' as i32, &mut filter);
    process_input('b' as i32, &mut filter);
    assert_eq!(filter, vec!['k', 'b']);
    process_input(127, &mut filter);
    assert_eq!(filter, vec!['k']);
    process_input(23, &mut filter);
    assert!(filter.is_empty());
    process_input(127, &mut filter);
    assert!(filter.is_empty());
}

#[test]
fn reader_loop_decisions() {
    let ev = InputEvent { event_type: EV_KEY, code: 30, value: 1 };
    assert_eq!(
        reader_step(ReaderMode::Normal, ReadOutcome::Success(ev), false),
        (ReaderMode::Normal, ReaderAction::Handle(ev))
    );
    assert_eq!(
        reader_step(ReaderMode::Normal, ReadOutcome::Sync(ev), false),
        (ReaderMode::Draining, ReaderAction::StartDrain)
    );
    assert_eq!(
        reader_step(ReaderMode::Draining, ReadOutcome::Sync(ev), false),
        (ReaderMode::Draining, ReaderAction::KeepDraining)
    );
    assert_eq!(
        reader_step(ReaderMode::Draining, ReadOutcome::Success(ev), false),
        (ReaderMode::Normal, ReaderAction::StopDrain)
    );
    assert_eq!(
        reader_step(ReaderMode::Normal, ReadOutcome::NoDevice, false),
        (ReaderMode::Normal, ReaderAction::Stop)
    );
    assert_eq!(
        reader_step(ReaderMode::Normal, ReadOutcome::WouldBlock, false),
        (ReaderMode::Normal, ReaderAction::Retry)
    );
    assert_eq!(
        reader_step(ReaderMode::Normal, ReadOutcome::OtherError, false),
        (ReaderMode::Normal, ReaderAction::Stop)
    );
    assert_eq!(
        reader_step(ReaderMode::Normal, ReadOutcome::Success(ev), true),
        (ReaderMode::Normal, ReaderAction::Stop)
    );
}
