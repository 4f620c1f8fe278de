//! The journal: stamps, records, and what becomes of a line.

use vm::calendar::{civil_from_days, rfc3339};
use vm::journal::{
    emit, gutter_path, init, log_dir, panic_line, path, quiet, render, rotate, stamp_now, Action,
    Event, Say, State, MAX_BYTES,
};

#[test]
fn rfc3339_renders_the_epoch_in_utc() {
    assert_eq!(rfc3339(0, 0), "1970-01-01T00:00:00.000+00:00");
}

#[test]
fn rfc3339_keeps_milliseconds_zero_padded() {
    assert_eq!(rfc3339(7, 0), "1970-01-01T00:00:00.007+00:00");
    assert_eq!(rfc3339(70, 0), "1970-01-01T00:00:00.070+00:00");
    assert_eq!(rfc3339(700, 0), "1970-01-01T00:00:00.700+00:00");
}

#[test]
fn rfc3339_renders_a_positive_offset_in_local_time() {
    assert_eq!(
        rfc3339(1_784_038_788_412, 2 * 3600),
        "2026-07-14T16:19:48.412+02:00"
    );
}

#[test]
fn rfc3339_rolls_the_date_back_across_a_negative_offset() {
    assert_eq!(
        rfc3339(1_767_241_800_000, -8 * 3600),
        "2025-12-31T20:30:00.000-08:00"
    );
}

#[test]
fn rfc3339_renders_a_half_hour_offset() {
    assert_eq!(rfc3339(0, 5 * 3600 + 1800), "1970-01-01T05:30:00.000+05:30");
}

#[test]
fn civil_from_days_handles_leap_years_and_century_rules() {
    assert_eq!(civil_from_days(0), (1970, 1, 1));
    assert_eq!(civil_from_days(11_016), (2000, 2, 29));
    assert_eq!(civil_from_days(19_782), (2024, 2, 29));
    assert_eq!(civil_from_days(19_783), (2024, 3, 1));
    assert_eq!(civil_from_days(20_148), (2025, 3, 1));
}

#[test]
fn civil_from_days_survives_a_negative_day_count() {
    assert_eq!(civil_from_days(-1), (1969, 12, 31));
    assert_eq!(civil_from_days(-719_468), (0, 3, 1));
}

#[test]
fn timestamps_of_these_centuries_are_of_one_width() {
    for ms in [0, 951_782_400_000, 4_102_444_799_999] {
        for offset in [-12 * 3600, 0, 14 * 3600] {
            assert_eq!(rfc3339(ms, offset).len(), 29);
        }
    }
}

#[test]
fn a_stamp_is_had_even_where_the_clock_is_not() {
    assert_eq!(stamp_now(Some(7), 0), "1970-01-01T00:00:00.007+00:00");
    assert_eq!(stamp_now(None, 3600), rfc3339(0, 3600));
}

#[test]
fn render_stamps_one_record_per_line() {
    let out = render("STAMP", 42, "first line\nsecond line");
    assert_eq!(out, "STAMP [42] first line\nSTAMP [42] second line\n");
}

#[test]
fn render_does_not_emit_an_empty_record_for_a_trailing_newline() {
    assert_eq!(render("STAMP", 42, "only\n"), "STAMP [42] only\n");
    assert_eq!(render("STAMP", 42, "a\n\nb"), "STAMP [42] a\nSTAMP [42] \nSTAMP [42] b\n");
    assert_eq!(render("STAMP", 42, ""), "STAMP [42] \n");
}

// ── The state machine ────────────────────────────────────────────────────────

#[test]
fn a_disabled_journal_writes_nothing_and_creates_no_file() {
    for has_dir in [false, true] {
        let (state, action) = emit(State::Disabled, Event::Line(has_dir));
        assert_eq!((state, action), (State::Disabled, Action::Nothing));
    }
}

#[test]
fn an_armed_journal_opens_on_first_write_and_stays_open() {
    let (state, action) = emit(State::Armed, Event::Line(true));
    assert_eq!(action, Action::OpenFile);
    let (state, action) = emit(state, Event::Opened(true));
    assert_eq!((state, action), (State::Open, Action::Append));
    let (state, action) = emit(state, Event::Written(true));
    assert_eq!((state, action), (State::Open, Action::Nothing));
    let (state, action) = emit(state, Event::Line(true));
    assert_eq!((state, action), (State::Open, Action::Append));
}

#[test]
fn a_dead_journal_stays_dead() {
    for event in [
        Event::Line(true),
        Event::Line(false),
        Event::Opened(true),
        Event::Written(true),
    ] {
        assert_eq!(emit(State::Dead, event), (State::Dead, Action::Nothing));
    }
}

#[test]
fn an_unopenable_journal_goes_dead_instead_of_failing_the_run() {
    let (state, _) = emit(State::Armed, Event::Line(true));
    assert_eq!(emit(state, Event::Opened(false)), (State::Dead, Action::Nothing));
    assert_eq!(emit(State::Armed, Event::Line(false)), (State::Dead, Action::Nothing));
}

#[test]
fn rotation_moves_an_oversized_journal_aside_and_starts_fresh() {
    assert!(rotate(Some(MAX_BYTES)));
    assert!(rotate(Some(MAX_BYTES + 1)));
}

#[test]
fn a_journal_under_the_limit_is_not_rotated() {
    assert!(!rotate(Some(MAX_BYTES - 1)));
    assert!(!rotate(Some(0)));
    assert!(!rotate(None));
}

#[test]
fn quiet_takes_the_breadcrumb_off_stderr_but_leaves_it_in_the_journal() {
    let crumb = Say::Crumb("vm ▸ x".into());
    assert!(crumb.reaches_stderr(false) && !crumb.reaches_stderr(true));
    let journal = init(true, None);
    assert!(quiet(&journal));
    assert_eq!(journal.state, State::Armed);
}

#[test]
fn quiet_never_hides_a_note_or_an_error() {
    let notice = Say::Notice("vm: error".into());
    assert!(notice.reaches_stderr(false) && notice.reaches_stderr(true));
    assert_eq!(notice.text(), "vm: error");
}

#[test]
fn vm_journal_off_writes_no_file_but_still_narrates() {
    let journal = init(false, Some("off"));
    assert_eq!(journal.state, State::Disabled);
    assert!(Say::Crumb("x".into()).reaches_stderr(journal.quiet));
    assert_eq!(init(false, Some("on")).state, State::Armed);
}

#[test]
fn the_journal_lies_beside_the_config() {
    assert_eq!(log_dir(Some("/c/vm")).as_deref(), Some("/c/vm/log"));
    assert_eq!(path(Some("/c/vm")).as_deref(), Some("/c/vm/log/vm.log"));
    assert_eq!(
        gutter_path(Some("/c/vm")).as_deref(),
        Some("/c/vm/log/reap-launchd.log")
    );
    assert_eq!(path(None), None);
    assert_eq!(panic_line("boom"), "vm: panic: boom");
}

#[test]
fn timestamps_sort_by_time() {
    let instants = [
        -62_167_219_200_000,
        -1,
        0,
        999,
        86_399_999,
        86_400_000,
        951_782_399_999,
        1_784_038_788_412,
        253_402_300_799_999,
    ];
    let stamps: Vec<String> = instants.iter().map(|ms| rfc3339(*ms, 0)).collect();
    let mut sorted = stamps.clone();
    sorted.sort();
    assert_eq!(stamps, sorted);
    assert_eq!(stamps[0], "0000-01-01T00:00:00.000+00:00");
    assert_eq!(stamps[8], "9999-12-31T23:59:59.999+00:00");
}
