//! Parsing, identity and decisions, on concrete displays.

use displayed::display::{normalize_id, same_display_identity, Display};
use displayed::placer::{parse_displayplacer, ParsedDisplayplacer};
use displayed::policy::{
    auto_watch_action_for_state, display_loss_restore_action_for_change,
    internal_guard_action_for_state, internal_restore_candidates,
    no_enabled_display_safety_action_for_state, AutoWatchAction, ClamshellState, DisplayChange,
    GuardAction, FALLBACK_BUILTIN_DISPLAY_ID, K_CG_DISPLAY_DISABLED_FLAG, K_CG_DISPLAY_REMOVE_FLAG,
};
use displayed::state::{display_to_state_line, parse_display_state_line};
use displayed::target::{parse_target_line, target_to_line, MonitorTarget};

#[test]
fn parses_displayplacer_blocks() {
    let raw = r#"Persistent screen id: ABC
Contextual screen id: 1
Serial screen id: s123
Type: MacBook built in screen
Resolution: 1512x982
Origin: (0,0) - main display
Rotation: 0 - rotate internal screen example
Enabled: true

Persistent screen id: DEF
Contextual screen id: 2
Serial screen id: s456
Type: 27 inch external screen
Resolution: 2560x1440
Origin: (1512,0)
Rotation: 0
Enabled: true

Execute the command below to set your screens to the current arrangement.

displayplacer "id:ABC enabled:true"
"#;

    let parsed = parse_displayplacer(raw);
    assert_eq!(parsed.displays.len(), 2);
    assert!(parsed.displays[0].is_internal());
    assert!(parsed.displays[0].is_main);
    assert!(parsed.displays[1].matches("s456"));
    assert!(parsed.restore_command.unwrap().contains("displayplacer"));
}

#[test]
fn normalizes_serial_prefix() {
    assert_eq!(normalize_id("s123"), normalize_id("123"));
    assert_eq!(normalize_id("SABC"), normalize_id("abc"));
}

#[test]
fn internal_restore_candidates_prefers_live_then_remembered_then_fallback() {
    assert_eq!(
        internal_restore_candidates(None, Some(5), Some(2)),
        vec![5, 2, FALLBACK_BUILTIN_DISPLAY_ID]
    );
}

#[test]
fn internal_restore_candidates_dedupes_overlapping_ids() {
    assert_eq!(
        internal_restore_candidates(None, Some(1), Some(1)),
        vec![FALLBACK_BUILTIN_DISPLAY_ID]
    );
    assert_eq!(
        internal_restore_candidates(None, None, Some(2)),
        vec![2, FALLBACK_BUILTIN_DISPLAY_ID]
    );
}

#[test]
fn internal_restore_candidates_falls_back_to_builtin_id_when_nothing_known() {
    assert_eq!(
        internal_restore_candidates(None, None, None),
        vec![FALLBACK_BUILTIN_DISPLAY_ID]
    );
}

#[test]
fn internal_restore_candidates_uses_explicit_id_alone() {
    assert_eq!(
        internal_restore_candidates(Some(7), Some(5), Some(2)),
        vec![7]
    );
}

#[test]
fn serializes_and_matches_monitor_targets() {
    let display = Display {
        persistent_id: Some("ABC".to_string()),
        contextual_id: Some("2".to_string()),
        serial_id: Some("s123".to_string()),
        display_type: Some("24 inch external screen".to_string()),
        resolution: Some("1920x1080".to_string()),
        enabled: Some(true),
        ..Display::default()
    };
    let target = MonitorTarget::from_display(&display).unwrap();
    let line = target_to_line(&target);
    let parsed = parse_target_line(&line).unwrap();

    assert!(parsed.matches_display(&display));
    assert!(parsed.same_identity(&target));
    assert_eq!(parsed.contextual_id.as_deref(), Some("2"));
}

#[test]
fn monitor_target_rejects_contextual_only_display() {
    let display = Display {
        contextual_id: Some("17".to_string()),
        display_type: Some("remembered external display".to_string()),
        enabled: Some(false),
        remembered_absent: true,
        ..Display::default()
    };

    assert!(MonitorTarget::from_display(&display).is_none());
    assert!(parse_target_line("contextual=17\tlabel=remembered").is_none());
}

#[test]
fn monitor_target_does_not_match_stale_contextual_when_stable_identity_differs() {
    let target = MonitorTarget {
        contextual_id: Some("2".to_string()),
        persistent_id: Some("TARGET".to_string()),
        serial_id: Some("s123".to_string()),
        display_type: Some("24 inch external screen".to_string()),
        resolution: Some("1920x1080".to_string()),
        label: "target".to_string(),
    };
    let display = Display {
        contextual_id: Some("2".to_string()),
        persistent_id: Some("OTHER".to_string()),
        serial_id: Some("s456".to_string()),
        display_type: Some("24 inch external screen".to_string()),
        resolution: Some("1920x1080".to_string()),
        enabled: Some(true),
        ..Display::default()
    };

    assert!(!target.matches_display(&display));
}

#[test]
fn serializes_remembered_display_rows() {
    let display = Display {
        persistent_id: Some("ABC".to_string()),
        contextual_id: Some("2".to_string()),
        serial_id: Some("s123".to_string()),
        display_type: Some("24 inch external screen".to_string()),
        resolution: Some("1920x1080".to_string()),
        enabled: Some(true),
        ..Display::default()
    };

    let line = display_to_state_line(&display).unwrap();
    let raw = line.strip_prefix("display\t").unwrap();
    let parsed = parse_display_state_line(raw).unwrap();

    assert!(same_display_identity(&display, &parsed));
    assert_eq!(parsed.contextual_display_id(), Some(2));
    assert!(parsed.remembered_absent);
    assert!(!parsed.is_enabled());
}

#[test]
fn remembered_display_rows_require_stable_identity() {
    let display = Display {
        contextual_id: Some("17".to_string()),
        display_type: Some("remembered external display".to_string()),
        enabled: Some(false),
        remembered_absent: true,
        ..Display::default()
    };

    assert!(display_to_state_line(&display).is_none());
    assert!(
        parse_display_state_line(
            "contextual=17\ttype=remembered external display\tinternal=false"
        )
        .is_none()
    );
}

#[test]
fn remembered_display_identity_prefers_stable_ids_over_contextual_ids() {
    let remembered = Display {
        contextual_id: Some("2".to_string()),
        persistent_id: Some("ABC".to_string()),
        serial_id: Some("s123".to_string()),
        display_type: Some("24 inch external screen".to_string()),
        resolution: Some("1920x1080".to_string()),
        enabled: Some(false),
        remembered_absent: true,
        ..Display::default()
    };
    let same_display_new_contextual = Display {
        contextual_id: Some("9".to_string()),
        persistent_id: Some("ABC".to_string()),
        serial_id: Some("s123".to_string()),
        display_type: Some("24 inch external screen".to_string()),
        resolution: Some("1920x1080".to_string()),
        enabled: Some(true),
        ..Display::default()
    };
    let different_display_same_contextual = Display {
        contextual_id: Some("2".to_string()),
        persistent_id: Some("DEF".to_string()),
        serial_id: Some("s456".to_string()),
        display_type: Some("27 inch external screen".to_string()),
        resolution: Some("2560x1440".to_string()),
        enabled: Some(true),
        ..Display::default()
    };

    assert!(same_display_identity(
        &remembered,
        &same_display_new_contextual
    ));
    assert!(!same_display_identity(
        &remembered,
        &different_display_same_contextual
    ));
}

#[test]
fn auto_watch_disables_internal_when_target_is_present() {
    let parsed = parsed_with_displays(vec![internal_display(true), external_display(true)]);

    assert_eq!(
        auto_watch_action_for_state(&parsed, true),
        AutoWatchAction::DisabledInternal
    );
}

#[test]
fn auto_watch_leaves_internal_off_while_target_remains_present() {
    let parsed = parsed_with_displays(vec![external_display(true)]);

    assert_eq!(
        auto_watch_action_for_state(&parsed, true),
        AutoWatchAction::Idle
    );
}

#[test]
fn auto_watch_restores_internal_when_target_is_absent_and_internal_is_off() {
    let parsed = parsed_with_displays(vec![external_display(false)]);

    assert_eq!(
        auto_watch_action_for_state(&parsed, false),
        AutoWatchAction::RestoredInternal
    );
}

#[test]
fn auto_watch_does_not_restore_when_internal_is_already_enabled() {
    let parsed = parsed_with_displays(vec![internal_display(true)]);

    assert_eq!(
        auto_watch_action_for_state(&parsed, false),
        AutoWatchAction::Idle
    );
}

#[test]
fn no_enabled_display_safety_restores_when_display_list_is_empty() {
    let parsed = parsed_with_displays(Vec::new());

    assert_eq!(
        no_enabled_display_safety_action_for_state(&parsed),
        AutoWatchAction::RestoredInternal
    );
}

#[test]
fn no_enabled_display_safety_restores_when_all_displays_are_off() {
    let parsed = parsed_with_displays(vec![internal_display(false), external_display(false)]);

    assert_eq!(
        no_enabled_display_safety_action_for_state(&parsed),
        AutoWatchAction::RestoredInternal
    );
}

#[test]
fn no_enabled_display_safety_stays_idle_when_external_is_enabled() {
    let parsed = parsed_with_displays(vec![external_display(true)]);

    assert_eq!(
        no_enabled_display_safety_action_for_state(&parsed),
        AutoWatchAction::Idle
    );
}

#[test]
fn guard_stays_idle_when_clamshell_is_closed() {
    let parsed = parsed_with_displays(Vec::new());

    assert_eq!(
        internal_guard_action_for_state(ClamshellState::Closed, Some(&parsed)),
        GuardAction::Idle
    );
}

#[test]
fn guard_stays_idle_when_internal_is_enabled() {
    let parsed = parsed_with_displays(vec![internal_display(true)]);

    assert_eq!(
        internal_guard_action_for_state(ClamshellState::Open, Some(&parsed)),
        GuardAction::Idle
    );
}

#[test]
fn guard_preserves_external_only_when_external_is_enabled() {
    let parsed = parsed_with_displays(vec![external_display(true)]);

    assert_eq!(
        internal_guard_action_for_state(ClamshellState::Open, Some(&parsed)),
        GuardAction::Idle
    );
}

#[test]
fn guard_restores_when_open_and_no_enabled_display_exists() {
    let parsed = parsed_with_displays(vec![internal_display(false), external_display(false)]);

    assert_eq!(
        internal_guard_action_for_state(ClamshellState::Open, Some(&parsed)),
        GuardAction::RestoreInternal
    );
}

#[test]
fn guard_restores_when_open_and_display_state_is_unavailable() {
    assert_eq!(
        internal_guard_action_for_state(ClamshellState::Open, None),
        GuardAction::RestoreInternal
    );
}

#[test]
fn display_change_detects_remove_or_disable_flags_as_display_loss() {
    assert!(
        DisplayChange {
            display: 2,
            flags: K_CG_DISPLAY_REMOVE_FLAG,
        }
        .is_display_loss()
    );
    assert!(
        DisplayChange {
            display: 2,
            flags: K_CG_DISPLAY_DISABLED_FLAG,
        }
        .is_display_loss()
    );
    assert!(
        !DisplayChange {
            display: 2,
            flags: 0,
        }
        .is_display_loss()
    );
}

#[test]
fn display_loss_restore_ignores_remembered_internal_disable() {
    let change = DisplayChange {
        display: 1,
        flags: K_CG_DISPLAY_DISABLED_FLAG,
    };

    assert_eq!(
        display_loss_restore_action_for_change(change, Some(1), false),
        AutoWatchAction::Idle
    );
}

#[test]
fn display_loss_restore_runs_for_external_remove() {
    let change = DisplayChange {
        display: 2,
        flags: K_CG_DISPLAY_REMOVE_FLAG,
    };

    assert_eq!(
        display_loss_restore_action_for_change(change, Some(1), false),
        AutoWatchAction::RestoredInternal
    );
}

#[test]
fn display_loss_restore_stays_idle_for_non_loss_event() {
    let change = DisplayChange {
        display: 2,
        flags: 0,
    };

    assert_eq!(
        display_loss_restore_action_for_change(change, Some(1), false),
        AutoWatchAction::Idle
    );
}

#[test]
fn display_loss_restore_ignores_builtin_even_when_remembered_id_is_stale() {
    // Built-in disabled, but the remembered internal_display_id is a stale
    // contextual id (1) that no longer matches the live id (7). The live builtin
    // check must still suppress the restore so the watcher does not loop.
    let change = DisplayChange {
        display: 7,
        flags: K_CG_DISPLAY_DISABLED_FLAG,
    };

    assert_eq!(
        display_loss_restore_action_for_change(change, Some(1), true),
        AutoWatchAction::Idle
    );
}

fn parsed_with_displays(displays: Vec<Display>) -> ParsedDisplayplacer {
    ParsedDisplayplacer {
        displays,
        restore_command: None,
        raw: String::new(),
    }
}

fn internal_display(enabled: bool) -> Display {
    Display {
        persistent_id: Some("INTERNAL".to_string()),
        contextual_id: Some("1".to_string()),
        display_type: Some("MacBook built in screen".to_string()),
        enabled: Some(enabled),
        ..Display::default()
    }
}

fn external_display(enabled: bool) -> Display {
    Display {
        persistent_id: Some("EXTERNAL".to_string()),
        contextual_id: Some("2".to_string()),
        serial_id: Some("s456".to_string()),
        display_type: Some("27 inch external screen".to_string()),
        enabled: Some(enabled),
        ..Display::default()
    }
}
