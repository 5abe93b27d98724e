//! The interface: settings, target input, keys and replay.

use ttl::addr::{IpAddr, Ipv4Addr};
use ttl::config::Config;
use ttl::prefs::DisplayMode;
use ttl::session::{Address, Hop, Session, Target};
use ttl::state::{ProbeEvent, ProbeOutcome};
use ttl::tui::edit::{cursor_left, cursor_right, delete_char, erase_char, split, type_char};
use ttl::tui::help::HelpView;
use ttl::tui::key::Key;
use ttl::tui::keys::{Action, Context, ReplayCommand};
use ttl::tui::line::{popup, Line, Rect};
use ttl::tui::replay::{
    format_replay_position, format_replay_time, replay_event_index_for_time,
    replay_target_ms_from_delta, ReplayState, SessionChange,
};
use ttl::tui::screen::{
    banner, detailed_hop, empty_screen, empty_status, progress_label, resolve_status, rows,
    status_text, ReplayEffect, ResolveInfo,
};
use ttl::tui::settings::{SettingsState, SettingsView};
use ttl::tui::target_input::{InputAction, TargetInputState, TargetInputView};
use ttl::tui::targets::extract_target_infos;
use ttl::tui::ui::{AddReply, UiState, UpdateReply, LIST_REFRESH_TICKS, STATUS_LIFETIME};

#[test]
fn test_settings_state_new() {
    let state = SettingsState::new(2, DisplayMode::Auto, Some("test_key".to_string()));
    assert_eq!(state.theme_index, 2);
    assert_eq!(state.display_mode, DisplayMode::Auto);
    assert_eq!(state.api_key, "test_key");
    assert_eq!(state.api_key_cursor, 8); // "test_key".len()
    assert_eq!(state.selected_section, 0);
    assert_eq!(state.theme_scroll, 0);
}

#[test]
fn test_settings_state_new_no_api_key() {
    let state = SettingsState::new(0, DisplayMode::Wide, None);
    assert_eq!(state.theme_index, 0);
    assert_eq!(state.display_mode, DisplayMode::Wide);
    assert_eq!(state.api_key, "");
    assert_eq!(state.api_key_cursor, 0);
}

#[test]
fn test_settings_state_select_cycles_display_mode() {
    let mut state = SettingsState::new(0, DisplayMode::Auto, None);

    // Section 0 (theme) - select does nothing to display_mode
    state.selected_section = 0;
    state.select();
    assert_eq!(state.display_mode, DisplayMode::Auto);

    // Section 1 (display mode) - select cycles
    state.selected_section = 1;
    state.select();
    assert_eq!(state.display_mode, DisplayMode::Compact);

    state.select();
    assert_eq!(state.display_mode, DisplayMode::Wide);

    state.select();
    assert_eq!(state.display_mode, DisplayMode::Auto);
}

#[test]
fn test_settings_state_next_section() {
    let mut state = SettingsState::new(0, DisplayMode::Auto, None);

    // Without IX enabled (2 sections)
    assert_eq!(state.selected_section, 0);
    state.next_section(false);
    assert_eq!(state.selected_section, 1);
    state.next_section(false);
    assert_eq!(state.selected_section, 0); // Wraps

    // With IX enabled (3 sections)
    state.selected_section = 0;
    state.next_section(true);
    assert_eq!(state.selected_section, 1);
    state.next_section(true);
    assert_eq!(state.selected_section, 2);
    state.next_section(true);
    assert_eq!(state.selected_section, 0); // Wraps
}

#[test]
fn test_settings_state_theme_navigation() {
    let mut state = SettingsState::new(5, DisplayMode::Auto, None);
    state.selected_section = 0;

    // Move up
    state.move_up(11);
    assert_eq!(state.theme_index, 4);

    // Move up at 0 stays at 0
    state.theme_index = 0;
    state.move_up(11);
    assert_eq!(state.theme_index, 0);

    // Move down
    state.theme_index = 5;
    state.move_down(11);
    assert_eq!(state.theme_index, 6);

    // Move down at max stays at max
    state.theme_index = 10;
    state.move_down(11);
    assert_eq!(state.theme_index, 10);
}

#[test]
fn test_settings_state_api_key_input() {
    let mut state = SettingsState::new(0, DisplayMode::Auto, None);

    // Type characters
    state.handle_char('a');
    state.handle_char('b');
    state.handle_char('c');
    assert_eq!(state.api_key, "abc");
    assert_eq!(state.api_key_cursor, 3);

    // Backspace
    state.handle_backspace();
    assert_eq!(state.api_key, "ab");
    assert_eq!(state.api_key_cursor, 2);

    // Backspace at empty string
    state.api_key = String::new();
    state.api_key_cursor = 0;
    state.handle_backspace();
    assert_eq!(state.api_key, "");
    assert_eq!(state.api_key_cursor, 0);
}

#[test]
fn test_settings_state_cursor_movement() {
    let mut state = SettingsState::new(0, DisplayMode::Auto, Some("hello".to_string()));
    assert_eq!(state.api_key_cursor, 5);

    // Move left
    state.move_cursor_left();
    assert_eq!(state.api_key_cursor, 4);

    // Move left to beginning
    state.api_key_cursor = 0;
    state.move_cursor_left();
    assert_eq!(state.api_key_cursor, 0); // Stays at 0

    // Move right
    state.api_key_cursor = 2;
    state.move_cursor_right();
    assert_eq!(state.api_key_cursor, 3);

    // Move right at end
    state.api_key_cursor = 5;
    state.move_cursor_right();
    assert_eq!(state.api_key_cursor, 5); // Stays at end
}

#[test]
fn test_settings_state_handle_delete() {
    let mut state = SettingsState::new(0, DisplayMode::Auto, Some("hello".to_string()));
    state.api_key_cursor = 2; // Position at 'l'

    state.handle_delete();
    assert_eq!(state.api_key, "helo"); // Deleted 'l' at position 2
    assert_eq!(state.api_key_cursor, 2); // Cursor stays

    // Delete at end does nothing
    state.api_key_cursor = 4;
    state.handle_delete();
    assert_eq!(state.api_key, "helo");
}

#[test]
fn test_settings_state_default() {
    let state = SettingsState::default();
    assert_eq!(state.theme_index, 0);
    assert_eq!(state.display_mode, DisplayMode::Auto);
    assert_eq!(state.api_key, "");
    assert_eq!(state.selected_section, 0);
}

#[test]
fn test_settings_state_multibyte_char_input() {
    let mut state = SettingsState::new(0, DisplayMode::Auto, None);

    // Insert a multi-byte character (é = 2 bytes)
    state.handle_char('é');
    assert_eq!(state.api_key, "é");
    assert_eq!(state.api_key_cursor, 2); // byte offset, not char count

    // Insert another multi-byte char
    state.handle_char('ä');
    assert_eq!(state.api_key, "éä");
    assert_eq!(state.api_key_cursor, 4);

    // Backspace removes the last char (2 bytes)
    state.handle_backspace();
    assert_eq!(state.api_key, "é");
    assert_eq!(state.api_key_cursor, 2);

    // Move cursor left to start
    state.move_cursor_left();
    assert_eq!(state.api_key_cursor, 0);

    // Insert at beginning
    state.handle_char('x');
    assert_eq!(state.api_key, "xé");
    assert_eq!(state.api_key_cursor, 1);
}

#[test]
fn test_settings_state_move_down_empty_themes() {
    let mut state = SettingsState::new(0, DisplayMode::Auto, None);
    state.selected_section = 0;

    // Should not panic with theme_count == 0
    state.move_down(0);
    assert_eq!(state.theme_index, 0);
}

#[test]
fn test_settings_state_split_at_safe_with_multibyte() {
    let mut state = SettingsState::new(0, DisplayMode::Auto, None);
    state.handle_char('日');
    state.handle_char('本');
    state.handle_char('語');

    // Move cursor to middle (after 本)
    state.move_cursor_left(); // before 語
    state.move_cursor_left(); // before 本

    // split_at should not panic — cursor is on a char boundary
    let (before, after) = state.api_key.split_at(state.api_key_cursor);
    assert_eq!(before, "日");
    assert_eq!(after, "本語");
}

#[test]
fn test_input_editing() {
    let mut s = TargetInputState::default();
    for c in "8.8.8.8".chars() {
        s.handle_char(c);
    }
    assert_eq!(s.input, "8.8.8.8");
    assert_eq!(s.cursor, 7);

    s.handle_backspace();
    assert_eq!(s.input, "8.8.8.");
    s.move_cursor_left();
    s.move_cursor_left();
    s.handle_delete(); // removes the '8' under the cursor at index 4
    assert_eq!(s.input, "8.8..");
    assert_eq!(s.cursor, 4);

    // Cursor stays in bounds
    for _ in 0..20 {
        s.move_cursor_right();
    }
    assert_eq!(s.cursor, s.input.len());
}

#[test]
fn test_non_ascii_ignored() {
    let mut s = TargetInputState::default();
    s.handle_char('h');
    s.handle_char('\u{00e9}'); // é: ignored, keeps byte-cursor math valid
    s.handle_char('\t');
    s.handle_char('x');
    assert_eq!(s.input, "hx");
    assert_eq!(s.cursor, 2);
}

fn make_timeout_event(offset_ms: u64, ttl: u8, seq: u8) -> ProbeEvent {
    ProbeEvent {
        offset_ms,
        ttl,
        seq,
        flow_id: 0,
        outcome: ProbeOutcome::Timeout,
    }
}

#[test]
fn test_replay_event_index_for_time_home_is_empty() {
    let events = vec![make_timeout_event(0, 1, 0), make_timeout_event(100, 1, 1)];
    assert_eq!(replay_event_index_for_time(&events, 0), 0);
}

#[test]
fn test_replay_event_index_for_time_end_includes_all() {
    let events = vec![make_timeout_event(0, 1, 0), make_timeout_event(100, 1, 1)];
    assert_eq!(replay_event_index_for_time(&events, 100), 2);
}

#[test]
fn test_replay_target_ms_from_delta_saturates() {
    assert_eq!(replay_target_ms_from_delta(1000, -500), 500);
    assert_eq!(replay_target_ms_from_delta(1000, -5000), 0);
    assert_eq!(replay_target_ms_from_delta(u64::MAX - 10, 100), u64::MAX);
    assert_eq!(replay_target_ms_from_delta(u64::MAX, i64::MAX), u64::MAX);
}

/// How many events a session holds after a change.
fn applied(change: SessionChange, before: usize) -> usize {
    match change {
        SessionChange::Keep => before,
        SessionChange::Apply(from, to) => {
            assert_eq!(from, before);
            to
        }
        SessionChange::Rebuild(count) => count,
    }
}

/// Plays events into a session, as a change of the position asks for.
fn play(session: &mut Session, change: SessionChange, events: &[ProbeEvent]) {
    let part = match change {
        SessionChange::Keep => &events[..0],
        SessionChange::Apply(from, to) => &events[from..to],
        SessionChange::Rebuild(to) => {
            *session = untouched_session();
            &events[..to]
        }
    };
    for event in part {
        session.total_sent += 1;
        let hop = &mut session.hops[event.ttl as usize - 1];
        hop.sent += 1;
        hop.timeouts += 1;
    }
}

fn untouched_session() -> Session {
    let mut session = session_to(1, "t", false);
    session.hops = (1..=30).map(|ttl| hop(ttl, 0)).collect();
    session
}

#[test]
fn test_seek_replay_to_end_applies_all_zero_offset_events() {
    let events = vec![make_timeout_event(0, 1, 0), make_timeout_event(0, 2, 1)];
    let mut replay = ReplayState {
        events,
        current_index: 0,
        paused: false,
        finished: false,
        paused_at_elapsed_ms: 0,
    };

    let change = replay.seek_to_end();

    let mut session = untouched_session();
    play(&mut session, change, &replay.events);
    assert_eq!(session.total_sent, 2);
    assert_eq!(session.hops[0].timeouts, 1);
    assert_eq!(session.hops[1].timeouts, 1);

    assert_eq!(applied(change, 0), 2);
    assert!(replay.finished);
    assert_eq!(replay.current_index, 2);
}

#[test]
fn test_seek_replay_to_same_position_is_noop_for_session_state() {
    let events = vec![make_timeout_event(100, 1, 0)];
    let mut replay = ReplayState {
        events,
        current_index: 0,
        paused: false,
        finished: false,
        paused_at_elapsed_ms: 0,
    };

    let change = replay.seek_to(0);

    let mut session = untouched_session();
    play(&mut session, change, &replay.events);
    assert_eq!(session.total_sent, 0);
    assert_eq!(session.hops[0].sent, 0);

    assert_eq!(change, SessionChange::Keep);
    assert_eq!(replay.current_index, 0);
    assert!(replay.paused);
}

#[test]
fn events_are_ordered_by_time() {
    let replay = ReplayState::new(vec![
        make_timeout_event(300, 1, 2),
        make_timeout_event(100, 1, 0),
        make_timeout_event(200, 1, 1),
        make_timeout_event(100, 2, 0),
    ]);
    let order: Vec<(u64, u8)> = replay.events.iter().map(|e| (e.offset_ms, e.ttl)).collect();
    assert_eq!(order, vec![(100, 1), (100, 2), (200, 1), (300, 1)]);
    assert_eq!(replay.total(), 300);
}

#[test]
fn the_session_follows_the_position() {
    let mut replay = ReplayState::new(vec![
        make_timeout_event(100, 1, 0),
        make_timeout_event(200, 1, 1),
        make_timeout_event(300, 1, 2),
    ]);
    let mut held: usize = 0;
    for target in [150, 300, 100, 0, 250] {
        held = applied(replay.seek_to(target), held);
        assert_eq!(held, replay.current_index);
        assert_eq!(replay.current_ms(999), target);
    }
    assert_eq!(replay.toggle_pause(0), Some(250));
    held = applied(replay.tick(260), held);
    assert_eq!(held, 2);
    held = applied(replay.tick(300), held);
    assert_eq!(held, 3);
    assert!(replay.finished);
}

#[test]
fn replay_times_are_written_out() {
    assert_eq!(format_replay_time(0), "0.0s");
    assert_eq!(format_replay_time(61_500), "1:01.5");
    assert_eq!(format_replay_position(500, 1_000, 1, 2), "0.5s (event 1/2)");
    assert_eq!(format_replay_position(0, 1_000, 0, 2), "start (event 0/2)");
    assert_eq!(format_replay_position(9, 1_000, 2, 2), "end 1.0s (event 2/2)");
    assert_eq!(format_replay_position(9, 0, 0, 0), "empty replay (0/0 events)");
}

#[test]
fn editing_steps_undo_each_other() {
    let mut text = "a\u{e9}".to_string();
    let mut cursor: usize = 1;
    type_char(&mut text, &mut cursor, '\u{65e5}');
    assert_eq!((text.as_str(), cursor), ("a\u{65e5}\u{e9}", 4));
    erase_char(&mut text, &mut cursor);
    assert_eq!((text.as_str(), cursor), ("a\u{e9}", 1));
    cursor_right(&text, &mut cursor);
    assert_eq!(cursor, 3);
    cursor_left(&text, &mut cursor);
    assert_eq!(cursor, 1);
    assert_eq!(split(&text, cursor), ("a".to_string(), "\u{e9}".to_string()));
    delete_char(&mut text, &mut cursor);
    assert_eq!((text.as_str(), cursor), ("a", 1));
}

fn address(last: u8) -> Address {
    Address {
        ip: IpAddr::V4(Ipv4Addr::new(192, 0, 2, last)),
        text: format!("192.0.2.{}", last),
    }
}

struct Setup {
    targets: Vec<Address>,
    paused: Vec<bool>,
    themes: Vec<String>,
}

fn setup(count: u8) -> Setup {
    Setup {
        targets: (1..=count).map(address).collect(),
        paused: vec![false; count as usize],
        themes: vec!["default".to_string(), "dracula".to_string()],
    }
}

fn press(ui: &mut UiState, setup: &Setup, key: Key) -> Action {
    let ctx = Context {
        targets: &setup.targets,
        paused: &setup.paused,
        theme_names: &setup.themes,
        ix_enabled: true,
        can_add: true,
        hop_count: 3,
        now: 1_000,
    };
    ui.handle_key(key, false, &ctx)
}

fn fresh_ui() -> UiState {
    UiState::new(0, DisplayMode::Auto, None, false, None)
}

#[test]
fn keys_of_the_main_view() {
    let setup = setup(2);
    let mut ui = fresh_ui();
    assert!(matches!(press(&mut ui, &setup, Key::Char('q')), Action::Quit));
    assert!(matches!(press(&mut ui, &setup, Key::Char('p')), Action::SetPaused(true)));
    assert!(ui.paused);
    assert!(matches!(press(&mut ui, &setup, Key::Char('e')), Action::Export));
    assert!(matches!(press(&mut ui, &setup, Key::Char('r')), Action::ResetStats));
    press(&mut ui, &setup, Key::Char('t'));
    assert_eq!(ui.theme_index, 1);
    press(&mut ui, &setup, Key::Char('t'));
    assert_eq!(ui.theme_index, 0);
    press(&mut ui, &setup, Key::Char('w'));
    assert_eq!(ui.display_mode, DisplayMode::Compact);
    press(&mut ui, &setup, Key::Char('?'));
    assert!(ui.show_help);
}

#[test]
fn selections_stay_in_range() {
    let setup = setup(2);
    let mut ui = fresh_ui();
    for key in [Key::Down, Key::Down, Key::Down, Key::Down, Key::Down] {
        press(&mut ui, &setup, key);
    }
    // Three hops: the selection goes round.
    assert_eq!(ui.selected, Some(1));
    press(&mut ui, &setup, Key::Up);
    press(&mut ui, &setup, Key::Up);
    assert_eq!(ui.selected, Some(2));
    for _ in 0..5 {
        press(&mut ui, &setup, Key::Tab);
        assert!(ui.selected_target < 2);
    }
    for _ in 0..3 {
        press(&mut ui, &setup, Key::BackTab);
        assert!(ui.selected_target < 2);
    }
}

#[test]
fn targets_are_typed_and_submitted() {
    let setup = setup(1);
    let mut ui = fresh_ui();
    press(&mut ui, &setup, Key::Char('o'));
    assert!(ui.show_target_input);
    for c in " dns ".chars() {
        press(&mut ui, &setup, Key::Char(c));
    }
    match press(&mut ui, &setup, Key::Enter) {
        Action::Submit(host) => assert_eq!(host, "dns"),
        _ => panic!("the host is to be added"),
    }
}

#[test]
fn replies_about_added_targets() {
    let mut targets = vec![address(1)];
    let mut ui = fresh_ui();
    ui.show_target_input = true;
    ui.target_input.pending = true;
    ui.take_add_reply(
        &AddReply::Added {
            address: address(2),
            name: "two".to_string(),
            existed: false,
        },
        &mut targets,
        5,
    );
    assert_eq!(targets.len(), 2);
    assert_eq!(ui.selected_target, 1);
    assert!(!ui.show_target_input);

    ui.show_target_input = true;
    ui.target_input.pending = true;
    ui.take_add_reply(&AddReply::Refused("no such host".to_string()), &mut targets, 5);
    assert_eq!(ui.target_input.error, Some("no such host".to_string()));
    assert_eq!(targets.len(), 2);
}

#[test]
fn messages_go_away() {
    let mut ui = fresh_ui();
    ui.set_status("saved", 10);
    ui.clear_old_status(10 + STATUS_LIFETIME - 1);
    assert!(ui.status_message.is_some());
    assert_eq!(status_text(&ui, "x", 1), "saved");
    ui.clear_old_status(11 + STATUS_LIFETIME);
    assert!(ui.status_message.is_none());
}

#[test]
fn updates_are_announced() {
    let mut ui = UiState::new(0, DisplayMode::Auto, None, true, None);
    ui.take_update(UpdateReply::Waiting);
    assert!(ui.awaiting_update);
    ui.take_update(UpdateReply::Done(Some("9.9.9".to_string())));
    assert!(!ui.awaiting_update);
    assert_eq!(ui.update_available, Some("9.9.9".to_string()));
    assert!(banner("1.0.0", "9.9.9").contains("9.9.9"));
    let laid_out = rows(true, true);
    assert_eq!((laid_out.banner, laid_out.main), (Some(0), 1));
    assert_eq!((laid_out.progress, laid_out.status), (Some(2), 3));
}

#[test]
fn replay_commands_from_the_interface() {
    let replay = ReplayState::new(vec![make_timeout_event(100, 1, 0), make_timeout_event(900, 1, 1)]);
    let mut ui = UiState::new(0, DisplayMode::Auto, None, false, Some(replay));
    match ui.run_replay(ReplayCommand::End, 0, 7) {
        ReplayEffect::Session(change) => assert_eq!(applied(change, 0), 2),
        _ => panic!("the session changes"),
    }
    assert!(ui.replay_state.as_ref().unwrap().finished);
    let faster = ui.run_replay(ReplayCommand::Faster, 0, 7);
    assert_eq!(
        faster,
        ReplayEffect::Speed {
            faster: true,
            position: 900,
            running: false
        }
    );
    let mut none = fresh_ui();
    assert_eq!(none.run_replay(ReplayCommand::Start, 0, 7), ReplayEffect::Nothing);
}

fn plain(lines: &Vec<Line>) -> String {
    let mut out = String::new();
    for line in lines {
        for span in &line.spans {
            out.push_str(&span.text);
        }
        out.push('\n');
    }
    out
}

const SCREEN: Rect = Rect {
    x: 0,
    y: 0,
    width: 100,
    height: 40,
};

#[test]
fn popups_are_centred() {
    let area = popup(SCREEN, 50, 20);
    assert_eq!((area.x, area.y, area.width, area.height), (25, 10, 50, 20));
    let small = Rect {
        width: 20,
        height: 10,
        ..SCREEN
    };
    assert!(popup(small, 50, 20).width <= 16);
}

#[test]
fn popups_show_their_text() {
    let help = HelpView::new().with_replay(true);
    assert!(help.title("1.2.3").contains("1.2.3"));
    assert!(plain(&help.lines("cargo install ttl")).contains("cargo install ttl"));
    assert!(help.area(SCREEN).width <= 50);

    let state = SettingsState::new(1, DisplayMode::Wide, Some("SECRET".to_string()));
    let themes = vec!["default".to_string(), "dracula".to_string()];
    let view = SettingsView::new(&state, &themes, None, true);
    let text = plain(&view.lines(0));
    assert!(text.contains("dracula"));
    assert!(text.contains("wide"));
    assert_eq!(SettingsView::format_cache_age(1_000, 1_000 + 7_200), "2h ago");

    let mut input = TargetInputState::default();
    input.handle_char('x');
    assert!(plain(&TargetInputView::new(&input).lines()).contains('x'));
    assert!(matches!(input.submit(true), InputAction::Submit(_)));
    assert!(plain(&empty_screen("1.2.3")).contains("1.2.3"));
}

#[test]
fn skipped_addresses_are_mentioned() {
    assert_eq!(resolve_status(None, 3), None);
    let info = ResolveInfo {
        skipped_ipv4: 0,
        skipped_ipv6: 2,
    };
    assert_eq!(
        resolve_status(Some(info), 3).unwrap(),
        "Resolved 3 targets (2 IPv6 skipped); press l to list"
    );
    assert_eq!(resolve_status(Some(info), 1), None);
}

#[test]
fn a_replay_plays_until_its_end() {
    let events = vec![make_timeout_event(100, 1, 0), make_timeout_event(900, 1, 1)];
    let mut ui = UiState::new(0, DisplayMode::Auto, None, false, Some(ReplayState::new(events)));
    assert_eq!(ui.replay_tick(500, false, 7), SessionChange::Keep);
    assert_eq!(applied(ui.replay_tick(500, true, 7), 0), 1);
    let label = progress_label(ui.replay_state.as_ref().unwrap(), 500, "1.0");
    assert_eq!(label, " >> 1/2 0.5s / 0.9s 1.0x ");
    assert_eq!(applied(ui.replay_tick(900, true, 7), 1), 2);
    assert!(ui.replay_state.as_ref().unwrap().finished);
    assert_eq!(empty_status(&ui), "Replay complete");
    assert_eq!(ui.replay_tick(950, true, 8), SessionChange::Keep);
    assert_eq!(
        empty_status(&fresh_ui()),
        "q quit | o add target | t theme | s settings | ? help"
    );
}

#[test]
fn choices_are_kept_at_the_end() {
    let setup = setup(1);
    let mut ui = UiState::new(0, DisplayMode::Wide, Some("key".to_string()), false, None);
    press(&mut ui, &setup, Key::Char('t'));
    let prefs = ui.final_prefs(&setup.themes, Some(true));
    assert_eq!(prefs.theme, Some("dracula".to_string()));
    assert_eq!(prefs.display_mode, Some(DisplayMode::Wide));
    assert_eq!(prefs.peeringdb_api_key, Some("key".to_string()));
    assert_eq!(prefs.no_update_check, Some(true));
    assert_eq!(fresh_ui().final_prefs(&setup.themes, None).peeringdb_api_key, None);
}

fn hop(ttl: u8, sent: u64) -> Hop {
    Hop {
        ttl,
        sent,
        received: 0,
        timeouts: 0,
        loss: "12.5".to_string(),
        responders: vec![],
        primary: None,
    }
}

fn session_to(last: u8, display: &str, display_is_address: bool) -> Session {
    Session {
        target: Target {
            original: display.to_string(),
            resolved: address(last),
            display: display.to_string(),
            display_is_address,
            hostname: Some("host.example".to_string()),
        },
        config: Config::default(),
        started_at: 0,
        complete: true,
        dest_ttl: Some(3),
        total_sent: 0,
        hops: vec![hop(1, 4), hop(2, 0), hop(3, 4)],
    }
}

#[test]
fn the_selected_hop_is_one_that_was_probed() {
    let session = session_to(1, "example.com", false);
    let mut ui = fresh_ui();
    ui.selected = Some(1);
    assert_eq!(detailed_hop(&ui, &session), None);
    ui.show_hop_detail = true;
    assert_eq!(detailed_hop(&ui, &session), Some(2));
    ui.selected = Some(2);
    assert_eq!(detailed_hop(&ui, &session), None);
}

#[test]
fn targets_are_listed() {
    let sessions = vec![
        session_to(1, "example.com", false),
        session_to(2, "192.0.2.2", true),
    ];
    let infos = extract_target_infos(&sessions, &vec![address(2), address(1), address(9)]);
    assert_eq!(infos.len(), 3);
    assert_eq!(infos[0].ip, "192.0.2.2");
    assert_eq!(infos[0].hostname, "host.example");
    assert_eq!(infos[1].hostname, "example.com");
    assert_eq!(infos[1].hops_str, "3 hops");
    assert_eq!(infos[1].loss_str, "12.5%");
    assert_eq!((infos[2].hops_str.as_str(), infos[2].loss_str.as_str()), ("--", "--"));
    assert_eq!(infos[2].hostname, "");
}

#[test]
fn the_list_of_targets_is_made_anew_now_and_then() {
    let setup = setup(2);
    let mut ui = fresh_ui();
    assert!(!ui.list_tick());
    press(&mut ui, &setup, Key::Char('l'));
    assert!(ui.show_target_list);
    for _ in 1..LIST_REFRESH_TICKS {
        assert!(!ui.list_tick());
    }
    assert!(ui.list_tick());
    ui.target_list_cached = false;
    assert!(ui.list_tick());
}

#[test]
fn a_request_that_is_not_taken_is_an_error() {
    let mut input = TargetInputState::default();
    input.handle_char('x');
    input.submitted(false);
    assert_eq!(input.error, Some("Target manager unavailable".to_string()));
    assert!(!input.pending);
    input.submitted(true);
    assert!(input.pending && input.resolving);
    assert_eq!((input.error, input.input.as_str()), (None, "x"));
}

#[test]
fn selections_out_of_range_are_told() {
    let mut ui = fresh_ui();
    assert!(ui.is_in_range(2, 2));
    ui.selected_target = 2;
    assert!(!ui.is_in_range(2, 2));
    assert!(ui.is_in_range(0, 2));
    ui.selected_target = 0;
    ui.theme_index = 2;
    assert!(!ui.is_in_range(2, 2));
}

#[test]
fn settings_steps_undo_each_other() {
    for c in ['a', '\u{e9}', '\u{65e5}', '\u{1f600}'] {
        let mut state = SettingsState::new(1, DisplayMode::Wide, Some("k\u{e9}y".to_string()));
        state.move_cursor_left();
        let cursor = state.api_key_cursor;
        state.handle_char(c);
        assert_eq!(state.api_key_cursor, cursor + c.len_utf8());
        state.handle_backspace();
        assert_eq!((state.api_key.as_str(), state.api_key_cursor), ("k\u{e9}y", cursor));
        assert_eq!((state.theme_index, state.selected_section), (1, 0));
    }
    let mut state = SettingsState::new(4, DisplayMode::Auto, None);
    state.move_down(11);
    assert_eq!((state.theme_index, state.theme_scroll), (5, 1));
    state.move_up(11);
    assert_eq!(state.theme_index, 4);
    assert!(state.theme_scroll <= 4 && 4 < state.theme_scroll + 5);
    state.selected_section = 1;
    state.move_up(11);
    assert_eq!((state.theme_index, state.theme_scroll), (4, 1));
}
