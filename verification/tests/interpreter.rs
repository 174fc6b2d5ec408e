use nvcat::highlight::{Highlight, HlEntry, HlEvent, HlValue};
use nvcat::msgpack::{command_msg, set_lines_msg};
use nvcat::screen::{Inbound, Nvim, UpdateEvent};
use nvcat::ProtocolError;

const NEUTRAL: &str = "\x1b[39;49;22;27;23;24m";

fn neutral_newline() -> String {
    format!("{}\x1b[K\n", NEUTRAL)
}

fn put(frags: &[&str]) -> UpdateEvent {
    UpdateEvent::Put(frags.iter().map(|s| s.to_string()).collect())
}

fn goto(row: usize, col: usize) -> UpdateEvent {
    UpdateEvent::CursorGoto(vec![(row, col)])
}

fn redraw(updates: Vec<UpdateEvent>) -> Inbound {
    Inbound::Notification("redraw".to_string(), updates)
}

fn hl_set(entries: Vec<(&str, HlValue)>) -> UpdateEvent {
    UpdateEvent::HighlightSet(Some(
        entries
            .into_iter()
            .map(|(k, v)| HlEntry { key: k.to_string(), value: v })
            .collect(),
    ))
}

/// Runs the engine's initial paint far enough that the first draw ends:
/// a jump into the modeline, then a cell write there.
fn finish_first_draw(nv: &mut Nvim, term: &mut String, engine: &mut Vec<u8>) {
    let msg = redraw(vec![goto(98, 0), put(&["status line"])]);
    let finished = nv.process_event(&msg, term, engine).unwrap();
    assert!(!finished);
}

#[test]
fn end_to_end_three_lines() {
    let mut nv = Nvim::new(true);
    let mut term = String::new();
    let mut engine: Vec<u8> = Vec::new();

    let lines = vec!["a".to_string(), "b".to_string(), "c".to_string()];
    nv.add_lines(&lines, &mut engine).unwrap();
    nv.set_eof();
    assert_eq!(engine, set_lines_msg(&lines));
    engine.clear();

    finish_first_draw(&mut nv, &mut term, &mut engine);
    assert_eq!(term, "");
    assert_eq!(engine, b"");

    let msg = redraw(vec![
        goto(0, 0),
        put(&["a"]),
        goto(1, 0),
        put(&["b"]),
        goto(2, 0),
        put(&["c"]),
        goto(3, 0),
    ]);
    let finished = nv.process_event(&msg, &mut term, &mut engine).unwrap();
    assert!(!finished);

    let nl = neutral_newline();
    let expected = format!(
        "{}a{}{}b{}{}c{}",
        NEUTRAL, nl, NEUTRAL, nl, NEUTRAL, nl
    );
    assert_eq!(term, expected);
    assert_eq!(engine, b"");

    // the move off the filler row below the last content line completes
    // the run: exactly one quit goes to the engine, one final terminator
    // to the terminal
    let msg = redraw(vec![goto(0, 0)]);
    let finished = nv.process_event(&msg, &mut term, &mut engine).unwrap();
    assert!(finished);
    assert!(nv.finished);
    assert_eq!(term, format!("{}{}", expected, nl));
    assert_eq!(engine, command_msg("qa!"));
}

#[test]
fn no_events_processed_after_completion() {
    let mut nv = Nvim::new(true);
    let mut term = String::new();
    let mut engine: Vec<u8> = Vec::new();

    nv.add_lines(&vec!["a".to_string()], &mut engine).unwrap();
    nv.set_eof();
    engine.clear();
    finish_first_draw(&mut nv, &mut term, &mut engine);

    let msg = redraw(vec![goto(0, 0), put(&["a"]), goto(1, 0), goto(0, 0)]);
    let finished = nv.process_event(&msg, &mut term, &mut engine).unwrap();
    assert!(finished);
    assert!(nv.finished);

    let after_term = term.clone();
    let after_engine = engine.clone();
    let msg = redraw(vec![goto(0, 0), put(&["zzz"]), goto(98, 0)]);
    let finished = nv.process_event(&msg, &mut term, &mut engine).unwrap();
    assert!(!finished);
    assert_eq!(term, after_term);
    assert_eq!(engine, after_engine);
}

#[test]
fn completion_stops_a_batch_midway() {
    let mut nv = Nvim::new(true);
    let mut term = String::new();
    let mut engine: Vec<u8> = Vec::new();

    nv.add_lines(&vec!["a".to_string()], &mut engine).unwrap();
    nv.set_eof();
    engine.clear();
    finish_first_draw(&mut nv, &mut term, &mut engine);

    let msg = redraw(vec![
        goto(0, 0),
        put(&["a"]),
        goto(1, 0),
        goto(2, 0),
        put(&["this must never be emitted"]),
    ]);
    let finished = nv.process_event(&msg, &mut term, &mut engine).unwrap();
    assert!(finished);
    assert!(!term.contains("never"));
}

#[test]
fn same_row_move_pads_without_line_break() {
    let mut nv = Nvim::new(true);
    let mut term = String::new();
    let mut engine: Vec<u8> = Vec::new();

    nv.add_lines(&vec!["ab   cd".to_string()], &mut engine).unwrap();
    engine.clear();
    finish_first_draw(&mut nv, &mut term, &mut engine);

    let msg = redraw(vec![goto(0, 0), put(&["ab"]), goto(0, 5), put(&["cd"])]);
    nv.process_event(&msg, &mut term, &mut engine).unwrap();

    // one padding run of three default-styled blanks, no line terminator
    let expected = format!("{}ab{}   {}cd", NEUTRAL, NEUTRAL, NEUTRAL);
    assert_eq!(term, expected);
    assert_eq!(nv.cursor_col, 7);
    assert_eq!(engine, b"");
}

#[test]
fn put_fragments_join_in_arrival_order() {
    let mut nv = Nvim::new(true);
    let mut term = String::new();
    let mut engine: Vec<u8> = Vec::new();

    nv.add_lines(&vec!["abc".to_string()], &mut engine).unwrap();
    engine.clear();
    finish_first_draw(&mut nv, &mut term, &mut engine);

    let msg = redraw(vec![goto(0, 0), put(&["a", "b", "c"])]);
    nv.process_event(&msg, &mut term, &mut engine).unwrap();
    assert_eq!(term, format!("{}abc", NEUTRAL));
}

#[test]
fn modeline_entry_scrolls_once_and_resets_cursor() {
    let mut nv = Nvim::new(true);
    let mut term = String::new();
    let mut engine: Vec<u8> = Vec::new();

    nv.add_lines(&vec!["x".to_string(); 200], &mut engine).unwrap();
    engine.clear();
    finish_first_draw(&mut nv, &mut term, &mut engine);

    let msg = redraw(vec![goto(98, 0)]);
    nv.process_event(&msg, &mut term, &mut engine).unwrap();
    assert_eq!(engine, command_msg("normal 98gjz\n"));
    assert_eq!(nv.cursor_row, 0);
    assert_eq!(nv.cursor_col, 0);
    assert_eq!(nv.offset, 0);
    assert!(nv.modeline);
    assert_eq!(term, "");
}

#[test]
fn stale_rows_beyond_pushed_content_are_ignored() {
    let mut nv = Nvim::new(true);
    let mut term = String::new();
    let mut engine: Vec<u8> = Vec::new();

    nv.add_lines(&vec!["a".to_string()], &mut engine).unwrap();
    engine.clear();
    finish_first_draw(&mut nv, &mut term, &mut engine);

    // row 5 is far beyond the single pushed line: the move is ignored
    let msg = redraw(vec![goto(5, 0)]);
    nv.process_event(&msg, &mut term, &mut engine).unwrap();
    assert_eq!(term, "");
    assert_eq!(nv.cursor_row, 0);
    assert_eq!(engine, b"");
}

#[test]
fn highlight_set_paints_following_text() {
    let mut nv = Nvim::new(true);
    let mut term = String::new();
    let mut engine: Vec<u8> = Vec::new();

    nv.add_lines(&vec!["hi".to_string()], &mut engine).unwrap();
    engine.clear();
    finish_first_draw(&mut nv, &mut term, &mut engine);

    let msg = redraw(vec![
        goto(0, 0),
        hl_set(vec![
            ("foreground", HlValue::Num(0xff0000)),
            ("bold", HlValue::Flag(true)),
        ]),
        put(&["hi"]),
    ]);
    nv.process_event(&msg, &mut term, &mut engine).unwrap();
    assert_eq!(term, "\x1b[38;2;255;0;0;49;1;27;23;24mhi");
}

#[test]
fn highlight_reset_returns_to_default() {
    let mut nv = Nvim::new(true);
    let mut term = String::new();
    let mut engine: Vec<u8> = Vec::new();

    nv.add_lines(&vec!["xy".to_string()], &mut engine).unwrap();
    engine.clear();
    finish_first_draw(&mut nv, &mut term, &mut engine);

    let msg = redraw(vec![
        goto(0, 0),
        hl_set(vec![("reverse", HlValue::Flag(true))]),
        put(&["x"]),
        UpdateEvent::HighlightSet(None),
        put(&["y"]),
    ]);
    nv.process_event(&msg, &mut term, &mut engine).unwrap();
    assert_eq!(
        term,
        format!("\x1b[39;49;22;7;23;24mx{}y", NEUTRAL)
    );
}

#[test]
fn later_highlight_entry_wins() {
    let mut nv = Nvim::new(true);
    let mut term = String::new();
    let mut engine: Vec<u8> = Vec::new();

    nv.add_lines(&vec!["z".to_string()], &mut engine).unwrap();
    engine.clear();
    finish_first_draw(&mut nv, &mut term, &mut engine);

    let msg = redraw(vec![
        goto(0, 0),
        hl_set(vec![
            ("foreground", HlValue::Num(0xff0000)),
            ("foreground", HlValue::Num(0x00ff00)),
        ]),
        put(&["z"]),
    ]);
    nv.process_event(&msg, &mut term, &mut engine).unwrap();
    assert_eq!(term, "\x1b[38;2;0;255;0;49;22;27;23;24mz");
}

#[test]
fn default_colour_changes_touch_only_the_default_set() {
    let mut nv = Nvim::new(true);
    let mut term = String::new();
    let mut engine: Vec<u8> = Vec::new();

    let msg = redraw(vec![UpdateEvent::UpdateFg(Some(0x123456))]);
    nv.process_event(&msg, &mut term, &mut engine).unwrap();
    assert_eq!(nv.hl.dflt.fg, "38;2;18;52;86");
    assert_eq!(nv.hl.current.fg, "39");

    let msg = redraw(vec![UpdateEvent::UpdateBg(Some(0x000001))]);
    nv.process_event(&msg, &mut term, &mut engine).unwrap();
    assert_eq!(nv.hl.dflt.bg, "48;2;0;0;1");
    assert_eq!(nv.hl.current.bg, "49");
}

#[test]
fn wrong_highlight_value_kind_is_a_protocol_error() {
    let mut nv = Nvim::new(true);
    let mut term = String::new();
    let mut engine: Vec<u8> = Vec::new();

    let msg = redraw(vec![hl_set(vec![("foreground", HlValue::Flag(true))])]);
    let r = nv.process_event(&msg, &mut term, &mut engine);
    assert_eq!(r, Err(ProtocolError::BadHighlightValue));
    assert_eq!(term, "");
}

#[test]
fn put_past_the_grid_edge_is_a_protocol_error() {
    let mut nv = Nvim::new(true);
    let mut term = String::new();
    let mut engine: Vec<u8> = Vec::new();

    nv.add_lines(&vec!["long".to_string()], &mut engine).unwrap();
    engine.clear();
    finish_first_draw(&mut nv, &mut term, &mut engine);

    let wide = "x".repeat(101);
    let msg = redraw(vec![goto(0, 0), UpdateEvent::Put(vec![wide])]);
    let r = nv.process_event(&msg, &mut term, &mut engine);
    assert_eq!(r, Err(ProtocolError::PutPastGridEdge));
    assert_eq!(term, "");
}

#[test]
fn non_redraw_messages_are_drained() {
    let mut nv = Nvim::new(true);
    let mut term = String::new();
    let mut engine: Vec<u8> = Vec::new();

    let msg = Inbound::Notification("resize".to_string(), vec![put(&["x"])]);
    let finished = nv.process_event(&msg, &mut term, &mut engine).unwrap();
    assert!(!finished);
    let finished = nv.process_event(&Inbound::Response, &mut term, &mut engine).unwrap();
    assert!(!finished);
    let finished = nv.process_event(&Inbound::Other, &mut term, &mut engine).unwrap();
    assert!(!finished);
    assert_eq!(term, "");
    assert_eq!(engine, b"");
}

#[test]
fn first_draw_suppresses_everything() {
    let mut nv = Nvim::new(true);
    let mut term = String::new();
    let mut engine: Vec<u8> = Vec::new();

    nv.add_lines(&vec!["a".to_string(), "b".to_string()], &mut engine).unwrap();
    engine.clear();

    let msg = redraw(vec![goto(0, 0), put(&["a"]), goto(1, 0), put(&["b"])]);
    nv.process_event(&msg, &mut term, &mut engine).unwrap();
    assert_eq!(term, "");
    assert_eq!(engine, b"");
    assert!(nv.first_draw);
}

#[test]
fn empty_cursor_goto_batch_is_ignored() {
    let mut nv = Nvim::new(true);
    let mut term = String::new();
    let mut engine: Vec<u8> = Vec::new();

    let msg = redraw(vec![UpdateEvent::CursorGoto(vec![]), UpdateEvent::Other]);
    let finished = nv.process_event(&msg, &mut term, &mut engine).unwrap();
    assert!(!finished);
    assert_eq!(term, "");
}

#[test]
fn reset_with_no_payload_is_idempotent() {
    let mut h = Highlight::new(true);
    h.apply_event(&HlEvent {
        fg: Some(0xff0000),
        bg: None,
        bold: Some(true),
        reverse: None,
        italic: None,
        underline: None,
    });
    assert_ne!(h.render_current(), h.render_default());
    h.reset();
    let first = h.render_current();
    assert_eq!(first, h.render_default());
    h.reset();
    let second = h.render_current();
    assert_eq!(first, second);
    assert_eq!(second, h.render_default());
}

#[test]
fn last_cursor_goto_instance_wins() {
    let mut nv = Nvim::new(true);
    let mut term = String::new();
    let mut engine: Vec<u8> = Vec::new();

    nv.add_lines(&vec!["q".to_string()], &mut engine).unwrap();
    engine.clear();
    finish_first_draw(&mut nv, &mut term, &mut engine);

    // the batched earlier instance (a stale jump) is superseded
    let msg = redraw(vec![
        UpdateEvent::CursorGoto(vec![(7, 7), (0, 0)]),
        put(&["q"]),
    ]);
    nv.process_event(&msg, &mut term, &mut engine).unwrap();
    assert_eq!(term, format!("{}q", NEUTRAL));
}
