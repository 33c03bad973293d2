use paneflow::terminal::allocation::AllocationRecord;
use paneflow::terminal::events::{
    burst_events, events_after_batch, ActivityGate, BatchOutcome, EventBatch, ProgramNotification,
    SessionState, TerminalEvent, BURST_THROTTLE, MAX_BATCH_EVENTS,
};
use paneflow::terminal::input::{
    bracketed_paste_enabled, command_bytes, expects_release, keystroke_output, sanitize_osc52,
    sequence_would_submit, text_bytes, AgentState, ImeState, DECLARED_AGENT_GRACE,
};
use paneflow::terminal::startup::{
    backend_failure_level, claim_backend_failure_report, classify_ghostty_start_error,
    spawn_error_message, FailureLevel, GhosttyStartError, TerminalBackendFailurePhase,
    TerminalBackendFailureReason,
};
use paneflow::terminal::types::{
    cell_in_grid, CellFlags, CursorShape, GridLineText, HyperlinkSource, HyperlinkZone, Line,
    Modes, Point, TerminalWindowSize,
};
use paneflow::terminal::view::{
    apply_terminal_focus, blink_tick, copy_cursor_state, cursor_drawn, default_engine_cursor,
    dispatch_context,    engine_cursor_shape, hover_step, renderer_cursor_shape_from_config, resolve_cursor_visible,
    rgb_from_hex_color, search_highlights, search_rail_lines, search_status, set_switch,
    shown_generation, CursorBlinkConfig, CursorShapeConfig, EngineCursorShape, FocusReport,
    zones_at, HoverLinkCache, HoverStep, SearchMatch,
};

#[test]
fn composite_mouse_mode_matches_any_reporting_mode() {
    assert!(Modes::mouse_report_click().intersects(Modes::mouse_mode()));
    assert!(Modes::mouse_drag().intersects(Modes::mouse_mode()));
    assert!(Modes::mouse_motion().intersects(Modes::mouse_mode()));
    assert!(!Modes::alt_screen().intersects(Modes::mouse_mode()));
}

#[test]
fn cell_flags_combined_bold_italic_requires_both_bits() {
    let bold_only = CellFlags::bold();
    assert!(bold_only.contains(CellFlags::bold()));
    assert!(!bold_only.contains(CellFlags::bold_italic()));

    let both = CellFlags::bold() | CellFlags::italic();
    assert!(both.contains(CellFlags::bold()));
    assert!(both.contains(CellFlags::italic()));
    assert!(both.contains(CellFlags::bold_italic()));

    assert!(CellFlags::empty().contains(CellFlags::empty()));
    assert!(!CellFlags::empty().contains(CellFlags::dim()));
}

#[test]
fn inserted_flags_join_the_others() {
    let mut flags = CellFlags::default();
    flags.insert(CellFlags::underline());
    flags.insert(CellFlags::strikeout());
    assert!(flags.contains(CellFlags::underline() | CellFlags::strikeout()));
    assert!(!flags.contains(CellFlags::inverse()));
}

#[test]
fn flags_are_told_apart() {
    let all = [
        CellFlags::inverse(),
        CellFlags::bold(),
        CellFlags::italic(),
        CellFlags::underline(),
        CellFlags::double_underline(),
        CellFlags::undercurl(),
        CellFlags::dotted_underline(),
        CellFlags::dashed_underline(),
        CellFlags::strikeout(),
        CellFlags::dim(),
        CellFlags::wide_char(),
        CellFlags::wide_char_spacer(),
    ];
    for (i, a) in all.iter().enumerate() {
        for (j, b) in all.iter().enumerate() {
            assert_eq!(a.contains(*b), i == j);
        }
    }
    let modes = Modes::kitty_keyboard() | Modes::app_cursor();
    assert!(modes.contains(Modes::kitty_keyboard()));
    assert!(!modes.contains(Modes::app_keypad()));
}

#[test]
fn positions_are_ordered_by_line_and_column() {
    assert!(Point::new(-3, 9) < Point::new(0, 0));
    assert!(Point::new(2, 1) < Point::new(2, 2));
    assert!(!(Point::new(2, 2) < Point::new(2, 2)));
    assert_eq!(TerminalWindowSize::new(80, 24, 8, 16).rows, 24);
}

#[test]
fn a_pointer_past_the_grid_is_over_its_last_cell() {
    assert_eq!(cell_in_grid(80, 24, 5, 3, 10), Point::new(-2, 10));
    assert_eq!(cell_in_grid(80, 24, 0, 100, 200), Point::new(23, 79));
    assert_eq!(cell_in_grid(0, 0, 0, 4, 4), Point::new(0, 0));
}

#[test]
fn counters_grow_with_an_allocation_and_the_largest_is_per_thread() {
    let mut record = AllocationRecord::new();
    record.allocated(100);
    record.reset_largest_allocation();
    let (bytes_before, calls_before) = record.allocation_counters();
    record.allocated(4096);
    let (bytes_after, calls_after) = record.allocation_counters();
    assert!(
        bytes_after - bytes_before >= 4096,
        "{bytes_before} -> {bytes_after}"
    );
    assert!(calls_after > calls_before);
    assert!(record.largest_allocation() >= 4096);
    record.reset_largest_allocation();
    assert_eq!(record.largest_allocation(), 0);
}

#[test]
fn a_reallocation_counts_its_growth() {
    let mut record = AllocationRecord::new();
    record.allocated(100);
    record.reallocated(100, 160);
    assert_eq!(record.allocation_counters(), (160, 2));
    assert_eq!(record.largest_allocation(), 160);
    record.reallocated(160, 10);
    assert_eq!(record.allocation_counters(), (160, 3));
}

#[test]
fn ghostty_start_errors_carry_their_phase_and_reason_code() {
    for (error, phase, reason_code) in [
        (
            GhosttyStartError::Initialization { os_error: None },
            TerminalBackendFailurePhase::Initialization,
            TerminalBackendFailureReason::GhosttyInitializationFailed,
        ),
        (
            GhosttyStartError::OpenPty { os_error: None },
            TerminalBackendFailurePhase::OpenPty,
            TerminalBackendFailureReason::GhosttyOpenPtyFailed,
        ),
        (
            GhosttyStartError::Spawn { os_error: None },
            TerminalBackendFailurePhase::Spawn,
            TerminalBackendFailureReason::GhosttySpawnFailed,
        ),
    ] {
        let failure = classify_ghostty_start_error(error);
        assert_eq!(failure.child_pid, None);
        assert_eq!(failure.diagnostics.phase, phase);
        assert_eq!(failure.diagnostics.reason_code, reason_code);
    }

    let failure = classify_ghostty_start_error(GhosttyStartError::PostSpawn {
        child_pid: 4321,
        os_error: Some(5),
    });
    assert_eq!(failure.child_pid, Some(4321));
    assert_eq!(
        failure.diagnostics.phase,
        TerminalBackendFailurePhase::PostSpawn
    );
    assert_eq!(
        failure.diagnostics.reason_code,
        TerminalBackendFailureReason::GhosttyPostSpawnFailed
    );
    assert_eq!(failure.diagnostics.os_error, Some(5));
}

#[test]
fn backend_start_failure_reports_once_per_process() {
    let mut reported = false;
    assert!(claim_backend_failure_report(&mut reported));
    assert!(!claim_backend_failure_report(&mut reported));

    let mut fresh = false;
    assert_eq!(backend_failure_level(&mut fresh), FailureLevel::Error);
    assert_eq!(backend_failure_level(&mut fresh), FailureLevel::Debug);
    assert_eq!(backend_failure_level(&mut fresh), FailureLevel::Debug);
}

#[test]
fn a_failed_pane_says_why() {
    let notice = spawn_error_message("open_pty", "ghostty_open_pty_failed", Some(-5));
    assert!(notice.ends_with(
        "failure_phase=open_pty reason_code=ghostty_open_pty_failed os_error=Some(-5)\x1b[0m\r\n"
    ));
    assert!(spawn_error_message("spawn", "x", None).contains("os_error=None"));
}

#[test]
fn sequence_would_submit_flags_cr_and_lf_only() {
    assert!(sequence_would_submit("\r"));
    assert!(sequence_would_submit("\n"));
    assert!(sequence_would_submit("text\rmore"));
    assert!(!sequence_would_submit("\x1b[A"));
    assert!(!sequence_would_submit("\x03"));
    assert!(!sequence_would_submit("a"));
}

#[test]
fn a_keystroke_that_would_submit_is_refused() {
    assert_eq!(
        keystroke_output("up", Some("\x1b[A"), None),
        Ok(Some(b"\x1b[A".to_vec()))
    );
    assert_eq!(
        keystroke_output("é", None, Some("é")),
        Ok(Some("é".as_bytes().to_vec()))
    );
    assert_eq!(keystroke_output("shift", None, None), Ok(None));
    let refusal = keystroke_output("enter", Some("\r"), None).unwrap_err();
    assert!(refusal.starts_with("keystroke 'enter' would submit"), "{refusal}");
}

#[test]
fn sanitize_osc52_strips_injection_controls_keeps_tab_and_newline() {
    let dirty = "echo hi\r\x1b[31mX\x1b[0m\u{7f}\u{0085}\tcol\nnext - café 🦀";
    let clean = sanitize_osc52(dirty);
    assert_eq!(clean, "echo hi[31mX[0m\tcol\nnext - café 🦀");
    assert!(
        !clean.contains('\r'),
        "CR (commits a line on paste) removed"
    );
    assert!(!clean.contains('\u{1b}'), "ESC removed");
    assert!(!clean.contains('\u{7f}'), "DEL removed");
    assert!(!clean.contains('\u{85}'), "C1 (NEL) removed");
    assert!(clean.contains('\t') && clean.contains('\n'), "TAB/LF kept");
}

#[test]
fn commands_end_in_a_return_and_texts_do_not() {
    assert_eq!(command_bytes("ls"), b"ls\r");
    assert_eq!(text_bytes("é"), "é".as_bytes());
    assert!(bracketed_paste_enabled(Modes::bracketed_paste()));
    assert!(!bracketed_paste_enabled(Modes::alt_screen()));
}

#[test]
fn a_held_key_is_sent_unless_text_was_composed() {
    let mut ime = ImeState::new();
    ime.hold_key("a".to_string());
    assert_eq!(ime.commit_text().as_deref(), Some("a"));
    ime.hold_key("n".to_string());
    ime.set_marked_text("ni😀".to_string());
    assert_eq!(ime.marked_text_range(), Some(0..4));
    assert_eq!(ime.commit_text(), None);
    assert_eq!(ime.marked_text_range(), None);
    ime.set_marked_text("x".to_string());
    ime.clear_marked_text();
    assert_eq!(ime.marked_text_range(), None);
    assert_eq!(expects_release(Some("a".to_string()), false), None);
    assert_eq!(expects_release(Some("a".to_string()), true).as_deref(), Some("a"));
}

#[test]
fn a_declared_agent_has_a_grace() {
    let mut state = AgentState {
        detected_agent: None,
        agent_confirmed: true,
        agent_declared_until: None,
    };
    state.declare_agent_from_command(None, 5);
    assert_eq!(state.detected_agent, None::<u8>);
    state.declare_agent(7u8, 5);
    assert_eq!(state.detected_agent, Some(7));
    assert!(!state.agent_confirmed);
    assert_eq!(state.agent_declared_until, Some(5 + DECLARED_AGENT_GRACE));
}

#[test]
fn a_batch_keeps_everything_but_wakeups() {
    let mut batch = EventBatch::start("a", false);
    assert!(!batch.offer("wake", true));
    assert!(!batch.offer("b", false));
    let (events, had_wakeup) = batch.close();
    assert_eq!(events, vec!["a", "b"]);
    assert!(had_wakeup);
}

#[test]
fn a_batch_is_full_at_its_limit() {
    let mut batch = EventBatch::start(0u32, false);
    let mut n = 1;
    while !batch.offer(n, false) {
        n += 1;
    }
    assert_eq!(batch.close().0.len() as u64, MAX_BATCH_EVENTS as u64);
}

fn session(title: &str, cwd: Option<&str>, busy: bool) -> SessionState {
    SessionState {
        title: title.to_string(),
        cwd: cwd.map(str::to_string),
        busy,
    }
}

#[test]
fn a_batch_tells_what_changed() {
    let before = session("zsh", Some("/a"), false);
    let after = BatchOutcome {
        state: session("vim", Some("/b"), true),
        exited: false,
        close_on_exit: true,
        prompt_ready: true,
    };
    let notes = vec![ProgramNotification {
        title: "t".to_string(),
        body: "b".to_string(),
    }];
    let told: Vec<TerminalEvent<u8>> = events_after_batch(&before, &after, notes);
    assert_eq!(
        told,
        vec![
            TerminalEvent::AgentAttention {
                title: "t".to_string(),
                body: "b".to_string()
            },
            TerminalEvent::AgentProgressChanged { busy: true },
            TerminalEvent::TitleChanged,
            TerminalEvent::CwdChanged("/b".to_string()),
            TerminalEvent::ShellPromptReady,
        ]
    );
}

#[test]
fn an_exit_is_told_in_place_of_progress() {
    let before = session("zsh", None, true);
    let mut after = BatchOutcome {
        state: session("zsh", None, false),
        exited: true,
        close_on_exit: true,
        prompt_ready: false,
    };
    let told: Vec<TerminalEvent<u8>> = events_after_batch(&before, &after, Vec::new());
    assert_eq!(told, vec![TerminalEvent::ChildExited]);
    after.close_on_exit = false;
    let told: Vec<TerminalEvent<u8>> = events_after_batch(&before, &after, Vec::new());
    assert!(told.is_empty());
}

#[test]
fn bursts_keep_their_distance() {
    let mut gate = ActivityGate {
        dirty: true,
        last_activity_burst: None,
    };
    assert!(gate.process_dirty_terminal(10, None).burst);
    assert!(!gate.process_dirty_terminal(11, None).notify);
    gate.dirty = true;
    let early = gate.process_dirty_terminal(9 + BURST_THROTTLE, Some(3));
    assert!(early.notify && !early.burst);
    assert_eq!(early.restore_offset, Some(3));
    gate.dirty = true;
    assert!(gate.process_dirty_terminal(10 + BURST_THROTTLE, None).burst);
    assert_eq!(
        burst_events(vec![80u16]),
        vec![TerminalEvent::ServiceDetected(80), TerminalEvent::ActivityBurst]
    );
}

#[test]
fn cursor_blink_override_resolves_correctly() {
    assert!(resolve_cursor_visible(CursorBlinkConfig::On, false, true));
    assert!(!resolve_cursor_visible(CursorBlinkConfig::On, false, false));
    assert!(resolve_cursor_visible(CursorBlinkConfig::Off, true, false));
    assert!(!resolve_cursor_visible(
        CursorBlinkConfig::TerminalControlled,
        true,
        false
    ));
    assert!(resolve_cursor_visible(
        CursorBlinkConfig::TerminalControlled,
        true,
        true
    ));
    assert!(resolve_cursor_visible(
        CursorBlinkConfig::TerminalControlled,
        false,
        false
    ));
}

#[test]
fn a_tick_redraws_only_a_cursor_that_changes() {
    let on = CursorBlinkConfig::On;
    assert_eq!(blink_tick(true, on, false, true, true), None);
    assert_eq!(blink_tick(false, on, false, true, true), None);
    assert_eq!(blink_tick(false, on, false, false, true), Some(false));
    assert!(cursor_drawn(false, Modes::alt_screen()));
    assert!(!cursor_drawn(false, Modes::empty()));
}

#[test]
fn cursor_shapes_carry_over() {
    assert_eq!(engine_cursor_shape(CursorShape::Beam), EngineCursorShape::Bar);
    assert_eq!(engine_cursor_shape(CursorShape::Hidden), EngineCursorShape::Block);
    assert_eq!(
        renderer_cursor_shape_from_config(CursorShapeConfig::Underline),
        CursorShape::Underline
    );
}

#[test]
fn hex_colours_are_read_to_the_digit() {
    assert_eq!(rgb_from_hex_color("#1a2B3c"), Some(0x1a2b3c));
    assert_eq!(rgb_from_hex_color("1a2b3c"), None);
    assert_eq!(rgb_from_hex_color("#1a2b3"), None);
    assert_eq!(rgb_from_hex_color("#1a2b3g"), None);
}

#[test]
fn a_change_of_focus_is_reported_once() {
    let mut focused = false;
    let gained = apply_terminal_focus(&mut focused, true, Modes::focus_in_out());
    assert_eq!(gained.report, Some(FocusReport::Gained));
    let again = apply_terminal_focus(&mut focused, true, Modes::focus_in_out());
    assert!(!again.changed);
    assert_eq!(again.report, None);
    let lost = apply_terminal_focus(&mut focused, false, Modes::empty());
    assert!(lost.changed && lost.release_keys);
    assert_eq!(lost.report, None);
}

#[test]
fn switches_say_whether_they_moved() {
    let mut on = false;
    assert!(set_switch(&mut on, true));
    assert!(!set_switch(&mut on, true));
    assert_eq!(shown_generation(1, 2, true), 2);
    assert_eq!(shown_generation(1, 2, false), 1);
}

#[test]
fn the_key_context_names_the_terminal() {
    let plain = dispatch_context(Modes::empty(), false);
    assert_eq!(plain[0].key, "Terminal");
    assert!(!plain.iter().any(|e| e.key == "search"));
    let searching = dispatch_context(Modes::empty(), true);
    assert!(searching.len() > plain.len());
}

#[test]
fn the_search_bar_counts_from_one() {
    assert_eq!(search_status(false, "x", 2, 10, false).text, "3/10");
    assert_eq!(search_status(false, "x", 0, 99, true).text, "1/99+");
    assert_eq!(search_status(false, "x", 0, 0, false).text, "No results");
    assert_eq!(search_status(false, "", 0, 0, false).text, "");
    assert!(search_status(false, "x", 0, 1, false).can_step);
    assert!(!search_status(false, "x", usize::MAX, 0, false).can_step);
    let wrong = search_status(true, "(", 0, 0, false);
    assert_eq!(wrong.text, "Invalid regex");
    assert!(wrong.is_error);
}

#[test]
fn matches_are_marked_while_the_search_is_open() {
    let matches = vec![
        SearchMatch {
            start: Point::new(-4, 1),
            end: Point::new(-4, 3),
        },
        SearchMatch {
            start: Point::new(2, 0),
            end: Point::new(2, 2),
        },
    ];
    let lit = search_highlights(true, &matches, 1);
    assert_eq!(lit.len(), 2);
    assert!(!lit[0].is_active);
    assert!(lit[1].is_active);
    assert!(search_highlights(false, &matches, 1).is_empty());
    assert_eq!(search_rail_lines(true, &matches, Line(23)), vec![27, 21]);
    assert_eq!(search_rail_lines(true, &matches, Line(-9)), vec![0, 0]);
    assert!(search_rail_lines(false, &matches, Line(23)).is_empty());
    assert!(copy_cursor_state(false, Point::new(1, 2), None).is_none());
    let cursor = copy_cursor_state(true, Point::new(1, 2), None).unwrap();
    assert_eq!((cursor.grid_line, cursor.col), (1, 2));
}

#[test]
fn links_are_found_again_only_on_a_new_line() {
    let hovered = GridLineText {
        line: Line(3),
        text: "see a.rs  ".to_string(),
        char_to_column: (0..10).collect(),
    };
    let mut cache = None;
    match hover_step(&mut cache, Some(&hovered), Some("/w")) {
        HoverStep::Detect { text, columns } => {
            assert_eq!(text, "see a.rs");
            assert_eq!(columns, (0..8).collect::<Vec<usize>>());
        }
        _ => panic!("expected a detection"),
    }
    cache = Some(HoverLinkCache::store(
        Line(3),
        Some("/w"),
        "see a.rs".to_string(),
        Vec::new(),
    ));
    assert!(matches!(
        hover_step(&mut cache, Some(&hovered), Some("/w")),
        HoverStep::Cached
    ));
    assert!(matches!(
        hover_step(&mut cache, Some(&hovered), Some("/elsewhere")),
        HoverStep::Detect { .. }
    ));
    assert!(matches!(hover_step(&mut cache, None, None), HoverStep::Nothing));
    assert!(cache.is_none());
}

#[test]
fn the_engine_falls_back_to_the_configured_cursor() {
    assert_eq!(
        default_engine_cursor(CursorShapeConfig::Beam, CursorBlinkConfig::On),
        (EngineCursorShape::Bar, true)
    );
    assert_eq!(
        default_engine_cursor(CursorShapeConfig::Vintage, CursorBlinkConfig::TerminalControlled),
        (EngineCursorShape::Block, false)
    );
    assert_eq!(
        default_engine_cursor(CursorShapeConfig::Hollow, CursorBlinkConfig::Off),
        (EngineCursorShape::HollowBlock, false)
    );
}

#[test]
fn only_links_under_the_pointer_are_hovered() {
    let zone = |uri: &str, from: usize, to: usize| HyperlinkZone {
        uri: uri.to_string(),
        id: String::new(),
        start: Point::new(3, from),
        end: Point::new(3, to),
        is_openable: true,
        source: HyperlinkSource::Regex,
        line: None,
        col: None,
    };
    let zones = vec![zone("a", 2, 5), zone("b", 6, 9), zone("c", 5, 5)];
    let at = |line: i32, column: usize| {
        zones_at(&zones, Point::new(line, column))
            .into_iter()
            .map(|z| z.uri)
            .collect::<Vec<String>>()
    };
    assert_eq!(at(3, 5), ["a", "c"]);
    assert_eq!(at(3, 2), ["a"]);
    assert_eq!(at(3, 9), ["b"]);
    assert!(at(3, 1).is_empty());
    assert!(at(4, 5).is_empty());
}
