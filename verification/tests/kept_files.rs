//! The files that are kept: what is written reads back.

use displayed::display::{same_display_identity, Display};
use displayed::number::NumberError;
use displayed::placer::parse_displayplacer;
use displayed::state::{
    display_to_state_line, merge_remembered_displays, parse_display_state_line,
    read_remembered_displays, read_state_value, read_state_values, remember_contextual_display_id,
    remember_display_metadata, remember_displays, remember_internal_id, remembered_display_ids,
    remembered_internal_display_id, remembered_internal_summary, upsert_remembered_display,
};
use displayed::target::{
    decode_field, encode_field, load_targets, parse_target_line, save_targets, target_to_line,
    toggle_target_for_display, MonitorTarget,
};

/// The numbers that a state file names.
fn numbers_in(body: &str) -> Vec<u32> {
    remembered_display_ids(
        read_state_value(Some(body), "internal_display_id").as_deref(),
        &read_state_values(Some(body), "known_display_id"),
    )
}

fn panel() -> Display {
    Display {
        persistent_id: Some("PANEL".to_string()),
        contextual_id: Some("1".to_string()),
        serial_id: Some("s99".to_string()),
        display_type: Some("MacBook built in screen".to_string()),
        resolution: Some("1512x982".to_string()),
        enabled: Some(true),
        is_main: true,
        ..Display::default()
    }
}

fn monitor() -> Display {
    Display {
        persistent_id: Some("MONITOR".to_string()),
        contextual_id: Some("2".to_string()),
        serial_id: Some("s123".to_string()),
        display_type: Some("24 inch external screen".to_string()),
        resolution: Some("1920x1080".to_string()),
        enabled: Some(true),
        ..Display::default()
    }
}

#[test]
fn fields_read_back() {
    for value in ["", "plain", "tab\there", "line\nfeed", "back\\slash", "\\t", "\\", "a\\\n\\\tb"] {
        let kept = encode_field(value);
        assert!(!kept.contains('\t') && !kept.contains('\n'));
        assert_eq!(decode_field(&kept), value);
    }
    assert_eq!(encode_field("a\tb\\c\nd"), "a\\tb\\\\c\\nd");
    assert_eq!(decode_field("a\\xb\\"), "a\\xb\\");
}

#[test]
fn target_lines_read_back() {
    let target = MonitorTarget {
        contextual_id: Some("2".to_string()),
        serial_id: Some("s1\t2".to_string()),
        persistent_id: Some("A\\B".to_string()),
        display_type: None,
        resolution: Some("".to_string()),
        label: "a label".to_string(),
    };
    let line = target_to_line(&target);
    assert_eq!(
        line,
        "contextual=2\tserial=s1\\t2\tpersistent=A\\\\B\tresolution=\tlabel=a label"
    );
    let read = parse_target_line(&line).unwrap();
    assert_eq!(read.contextual_id.as_deref(), Some("2"));
    assert_eq!(read.serial_id.as_deref(), Some("s1\t2"));
    assert_eq!(read.persistent_id.as_deref(), Some("A\\B"));
    assert_eq!(read.display_type, None);
    assert_eq!(read.resolution, None);
    assert_eq!(read.label, "a label");
    assert_eq!(
        parse_target_line("persistent=X\tlabel=\tnonsense\tother=1").unwrap().label,
        "saved display"
    );
}

#[test]
fn targets_files_read_back() {
    assert!(load_targets(None).is_empty());
    assert!(load_targets(Some("\n  \nlabel=only\n")).is_empty());
    let none: Vec<MonitorTarget> = Vec::new();
    assert_eq!(save_targets(&none), None);
    let target = MonitorTarget::from_display(&monitor()).unwrap();
    let body = save_targets(&vec![target]).unwrap();
    assert_eq!(
        body,
        "contextual=2\tserial=s123\tpersistent=MONITOR\ttype=24 inch external screen\tresolution=1920x1080\tlabel=24 inch external screen 1920x1080 s123\n"
    );
    let read = load_targets(Some(&body));
    assert_eq!(read.len(), 1);
    assert!(read[0].matches_display(&monitor()));
    assert_eq!(
        read[0].summary(),
        "24 inch external screen 1920x1080 s123 ctx:2 serial:s123 id:MONITOR"
    );
}

#[test]
fn targets_are_toggled() {
    let (added, was_added) = toggle_target_for_display(&monitor(), None).unwrap();
    assert!(was_added);
    assert_eq!(added.len(), 1);
    let body = save_targets(&added).unwrap();
    let (removed, was_added) = toggle_target_for_display(&monitor(), Some(&body)).unwrap();
    assert!(!was_added);
    assert!(removed.is_empty());
    assert_eq!(
        toggle_target_for_display(&panel(), None).err().unwrap(),
        "selected display cannot be used as an auto target"
    );
}

#[test]
fn state_files_hold_what_was_seen() {
    let seen = vec![panel(), monitor()];
    let body = remember_displays(None, &seen);
    assert_eq!(
        body,
        "internal_id=PANEL\ninternal_serial=s99\ninternal_display_id=1\n\
         known_display_id=1\nknown_display_id=2\n\
         display\tcontextual=1\tpersistent=PANEL\tserial=s99\ttype=MacBook built in screen\tresolution=1512x982\tinternal=true\n\
         display\tcontextual=2\tpersistent=MONITOR\tserial=s123\ttype=24 inch external screen\tresolution=1920x1080\tinternal=false\n"
    );
    let read = read_remembered_displays(Some(&body));
    assert_eq!(read.len(), 2);
    assert!(read[0].is_internal() && !read[0].is_enabled() && read[0].remembered_absent);
    assert!(!read[0].is_main);
    assert_eq!(read[1].persistent_id.as_deref(), Some("MONITOR"));
    // Seen again, nothing changes.
    assert_eq!(remember_displays(Some(&body), &seen), body);
    // A new number replaces the old one.
    let mut moved = monitor();
    moved.contextual_id = Some("9".to_string());
    let later = remember_display_metadata(Some(&body), &moved);
    assert_eq!(numbers_in(&later), vec![1, 9]);
}

#[test]
fn state_without_rows_names_the_panel() {
    let body = "internal_id=P\ninternal_serial=7\ninternal_display_id=4\n";
    let read = read_remembered_displays(Some(body));
    assert_eq!(read.len(), 1);
    assert!(read[0].is_internal());
    assert_eq!(read[0].contextual_display_id(), Some(4));
    assert!(read_remembered_displays(None).is_empty());
    assert!(read_remembered_displays(Some("internal_id=P\n")).is_empty());
}

#[test]
fn state_lines_guess_a_missing_type() {
    let read = parse_display_state_line("persistent=A\tinternal=true").unwrap();
    assert_eq!(read.display_type.as_deref(), Some("MacBook built in screen"));
    let read = parse_display_state_line("persistent=A\tinternal=false").unwrap();
    assert_eq!(read.display_type.as_deref(), Some("remembered external display"));
    let bare = Display { persistent_id: Some("A".to_string()), ..Display::default() };
    assert_eq!(
        display_to_state_line(&bare).unwrap(),
        "display\tpersistent=A\tinternal=false"
    );
}

#[test]
fn numbers_are_remembered_once() {
    let first = remember_contextual_display_id(None, 7).unwrap();
    assert_eq!(first, "known_display_id=7\n");
    assert_eq!(remember_contextual_display_id(Some(&first), 7), None);
    let second = remember_contextual_display_id(Some("internal_display_id=3"), 2).unwrap();
    assert_eq!(second, "internal_display_id=3\nknown_display_id=2\n");
    assert_eq!(numbers_in(&second), vec![2, 3]);
    assert_eq!(
        numbers_in(
            "known_display_id=9\nknown_display_id=x\nknown_display_id=2\nknown_display_id=9\n"
        ),
        vec![2, 9]
    );
    // A bare carriage return at the end hides a number until a line follows.
    let odd = "known_display_id=5\r";
    assert!(numbers_in(odd).is_empty());
    let grown = remember_contextual_display_id(Some(odd), 8).unwrap();
    assert_eq!(numbers_in(&grown), vec![5, 8]);
}

#[test]
fn state_values_are_read() {
    let body = "noise\nkey=one\nkey=two=three\nother=x\n";
    assert_eq!(read_state_value(Some(body), "key").as_deref(), Some("one"));
    assert_eq!(read_state_values(Some(body), "key"), vec!["one", "two=three"]);
    assert_eq!(read_state_value(Some(body), "missing"), None);
    assert_eq!(read_state_value(None, "key"), None);
    assert!(read_state_values(None, "key").is_empty());
}

#[test]
fn panel_numbers_are_read() {
    assert_eq!(remembered_internal_display_id(None), Ok(None));
    assert_eq!(
        remembered_internal_display_id(Some("internal_display_id=12\n")),
        Ok(Some(12))
    );
    assert_eq!(
        remembered_internal_display_id(Some("internal_display_id=\n")),
        Err(NumberError::Empty)
    );
    assert_eq!(
        remembered_internal_display_id(Some("internal_display_id=one\n")),
        Err(NumberError::InvalidDigit)
    );
    assert_eq!(
        remembered_internal_display_id(Some("internal_display_id=4294967296\n")),
        Err(NumberError::TooLarge)
    );
}

#[test]
fn panel_summaries_are_read() {
    assert_eq!(remembered_internal_summary(&None, &None, &None), None);
    assert_eq!(
        remembered_internal_summary(&None, &Some("s1".to_string()), &None).as_deref(),
        Some("remembered internal id:- display_id:- serial:s1")
    );
    assert_eq!(
        remember_internal_id("P", Some("s1"), Some("4")),
        "internal_id=P\ninternal_serial=s1\ninternal_display_id=4\nknown_display_id=4\n"
    );
    assert_eq!(
        remember_internal_id("P", None, Some("x")),
        "internal_id=P\ninternal_display_id=x\n"
    );
}

#[test]
fn remembered_displays_are_replaced_by_identity() {
    let mut list: Vec<Display> = Vec::new();
    upsert_remembered_display(&mut list, monitor());
    upsert_remembered_display(&mut list, panel());
    let mut again = monitor();
    again.contextual_id = Some("5".to_string());
    again.resolution = None;
    upsert_remembered_display(&mut list, again);
    assert_eq!(list.len(), 2);
    assert_eq!(list[0].contextual_id.as_deref(), Some("5"));
    assert!(list.iter().all(|d| d.remembered_absent && !d.is_enabled() && !d.is_main));
}

#[test]
fn merged_lists_lose_no_display() {
    let state = remember_displays(None, &vec![panel(), monitor()]);
    let target = MonitorTarget {
        contextual_id: None,
        serial_id: Some("s777".to_string()),
        persistent_id: None,
        display_type: None,
        resolution: None,
        label: "elsewhere".to_string(),
    };
    let targets = save_targets(&vec![target]).unwrap();
    let mut stranger = monitor();
    stranger.persistent_id = Some("NEW".to_string());
    stranger.serial_id = None;
    let merged = merge_remembered_displays(
        vec![stranger, panel()],
        Some(&state),
        Some(&targets),
    );
    let shown: Vec<(Option<&str>, bool)> = merged
        .iter()
        .map(|d| (d.persistent_id.as_deref(), d.is_enabled()))
        .collect();
    assert_eq!(
        shown,
        vec![
            (Some("PANEL"), true),
            (Some("MONITOR"), false),
            (None, false),
            (Some("NEW"), true),
        ]
    );
    assert_eq!(merged[2].display_type.as_deref(), Some("saved external display"));
}

#[test]
fn every_block_becomes_a_display() {
    let raw = "noise\nPersistent screen id: A \nEnabled: maybe\nPersistent screen id: B\nOrigin: (1,2) - main display\nRotation: 90 - turned\nHertz: 60\nColor Depth: 8\nScaling: on\n\ndisplayplacer \"x\"  \nmore\n";
    let parsed = parse_displayplacer(raw);
    assert_eq!(parsed.displays.len(), 2);
    assert_eq!(parsed.displays[0].persistent_id.as_deref(), Some("A"));
    assert_eq!(parsed.displays[0].enabled, None);
    assert!(!parsed.displays[0].is_main);
    assert_eq!(parsed.displays[1].origin.as_deref(), Some("(1,2)"));
    assert!(parsed.displays[1].is_main);
    assert_eq!(parsed.displays[1].rotation.as_deref(), Some("90"));
    assert_eq!(parsed.displays[1].hertz.as_deref(), Some("60"));
    assert_eq!(parsed.displays[1].color_depth.as_deref(), Some("8"));
    assert_eq!(parsed.displays[1].scaling.as_deref(), Some("on"));
    assert_eq!(
        parsed.restore_command.as_deref(),
        Some("displayplacer \"x\"\nmore")
    );
    assert_eq!(parsed.raw, raw);
}

#[test]
fn identities_need_more_than_placeholders() {
    for serial in ["", " ", "-", "0", "s0", "unknown", "no serial", "S"] {
        let display = Display {
            serial_id: Some(serial.to_string()),
            persistent_id: Some(" - ".to_string()),
            ..Display::default()
        };
        assert!(!display.has_stable_identity(), "{serial}");
    }
    assert_eq!(
        monitor().brief(),
        "MONITOR s123 24 inch external screen enabled:true"
    );
    assert_eq!(
        panel().brief(),
        "PANEL s99 MacBook built in screen enabled:true main"
    );
    assert_eq!(
        Display::default().brief(),
        "<no-persistent-id> <no-serial-id> <unknown-type> enabled:unknown"
    );
    assert_eq!(
        Display::default().label(),
        "unknown display unknown resolution no serial"
    );
}

#[test]
fn identity_is_the_same_both_ways() {
    let renumbered = Display {
        contextual_id: Some("77".to_string()),
        ..monitor()
    };
    let bare = Display {
        contextual_id: monitor().contextual_id,
        ..Display::default()
    };
    for left in [panel(), monitor(), renumbered, bare] {
        for right in [panel(), monitor()] {
            assert_eq!(
                same_display_identity(&left, &right),
                same_display_identity(&right, &left)
            );
        }
        assert!(same_display_identity(&left, &left));
    }
}

#[test]
fn contextual_ids_do_not_decide_between_stable_ones() {
    let other = Display {
        contextual_id: monitor().contextual_id,
        persistent_id: Some("OTHER".to_string()),
        serial_id: Some("s1000".to_string()),
        ..monitor()
    };
    assert!(!same_display_identity(&monitor(), &other));
    let renumbered = Display {
        contextual_id: Some("77".to_string()),
        ..monitor()
    };
    assert!(same_display_identity(&monitor(), &renumbered));
}

#[test]
fn a_serial_may_lack_its_prefix() {
    for name in ["99", "s99", "S99", "ss99", " s99 "] {
        assert!(panel().matches(name), "{name}");
    }
    assert!(!panel().matches("9"));
    // A capital behind a small one is cut, a small one behind a capital is not.
    assert!(panel().matches("sS99"));
    assert!(!panel().matches("Ss99"));
}
