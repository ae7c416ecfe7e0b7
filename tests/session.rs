use cagle::json::{read_allow_from_value, Json, MergeError};
use cagle::selection::{Promotion, Selection};
use cagle::session::{command_for, Command, Effect, Key, KeyPress, Outcome, Session, StatusKind};

fn s(t: &str) -> String {
    t.to_string()
}

fn strs(items: &[&str]) -> Json {
    Json::Array(items.iter().map(|t| Json::Str(s(t))).collect())
}

fn press(key: Key) -> KeyPress {
    KeyPress { key, control: false, other_modifiers: false }
}

fn ctrl(key: Key) -> KeyPress {
    KeyPress { key, control: true, other_modifiers: false }
}

fn list(items: &[&str]) -> Vec<String> {
    items.iter().map(|t| s(t)).collect()
}

#[test]
fn session_starts_on_first_row_without_status() {
    let doc = Json::Object(vec![]);
    let session = Session::new(list(&["A", "B", "C"]), doc).unwrap();
    assert_eq!(session.selection().cursor(), 0);
    assert_eq!(*session.status(), None);
    assert!(session.selection().promoted().is_empty());
}

#[test]
fn move_up_at_top_is_noop() {
    let mut sel = Selection::new(list(&["A", "B"]), vec![]).unwrap();
    sel.move_up();
    assert_eq!(sel.cursor(), 0);
    let mut one = Selection::new(list(&["A"]), vec![]).unwrap();
    one.move_up();
    assert_eq!(one.cursor(), 0);
}

#[test]
fn move_down_at_bottom_is_noop() {
    let mut sel = Selection::new(list(&["A", "B", "C"]), vec![]).unwrap();
    sel.move_down();
    sel.move_down();
    assert_eq!(sel.cursor(), 2);
    sel.move_down();
    assert_eq!(sel.cursor(), 2);
    sel.move_up();
    assert_eq!(sel.cursor(), 1);
    let mut one = Selection::new(list(&["A"]), vec![]).unwrap();
    one.move_down();
    assert_eq!(one.cursor(), 0);
}

#[test]
fn promote_twice_adds_once() {
    let mut sel = Selection::new(list(&["A", "B"]), list(&["X"])).unwrap();
    assert!(!sel.is_promoted(0));
    assert_eq!(sel.promote(0), Promotion::Promoted);
    assert!(sel.is_promoted(0));
    assert_eq!(sel.promote(0), Promotion::AlreadyPromoted);
    assert_eq!(*sel.promoted(), list(&["X", "A"]));
}

#[test]
fn repeated_entries_share_promoted_state() {
    let mut sel = Selection::new(list(&["A", "A"]), vec![]).unwrap();
    assert_eq!(sel.promote(0), Promotion::Promoted);
    assert!(sel.is_promoted(1));
    assert_eq!(sel.promote(1), Promotion::AlreadyPromoted);
    assert_eq!(*sel.promoted(), list(&["A"]));
}

#[test]
fn confirm_twice_saves_once() {
    let mut session = Session::new(list(&["A"]), Json::Object(vec![])).unwrap();
    assert_eq!(session.handle(press(Key::Enter)), Effect::Save);
    let after_first = read_allow_from_value(session.document());
    assert_eq!(session.handle(press(Key::Enter)), Effect::Redraw);
    assert_eq!(read_allow_from_value(session.document()), after_first);
    assert_eq!(after_first, list(&["A"]));
    let status = session.status().clone().unwrap();
    assert_eq!(status.kind, StatusKind::AlreadyGlobal);
    assert_eq!(status.entry, s("A"));
}

#[test]
fn scenario_a_creates_global_list() {
    let mut session = Session::new(list(&["Bash(ls:*)"]), Json::Object(vec![])).unwrap();
    assert_eq!(session.handle(press(Key::Enter)), Effect::Save);
    let expected = Json::Object(vec![(
        s("permissions"),
        Json::Object(vec![(s("allow"), strs(&["Bash(ls:*)"]))]),
    )]);
    assert_eq!(*session.document(), expected);
    let status = session.status().clone().unwrap();
    assert_eq!(status.kind, StatusKind::Added);
    assert_eq!(status.entry, s("Bash(ls:*)"));
    assert_eq!(session.handle(press(Key::Char('q'))), Effect::Exit);
    assert_eq!(Outcome::Quit.exit_code(), 0);
}

#[test]
fn scenario_b_skips_global_entry_and_adds_new_one() {
    let doc = Json::Object(vec![
        (s("permissions"), Json::Object(vec![(s("allow"), strs(&["A"]))])),
        (s("other"), Json::Number(s("1"))),
    ]);
    let mut session = Session::new(list(&["A", "B"]), doc).unwrap();
    assert_eq!(session.handle(press(Key::Enter)), Effect::Redraw);
    let status = session.status().clone().unwrap();
    assert_eq!(status.kind, StatusKind::AlreadyGlobal);
    assert_eq!(status.entry, s("A"));
    assert_eq!(session.handle(press(Key::Down)), Effect::Redraw);
    assert_eq!(*session.status(), None);
    assert_eq!(session.handle(press(Key::Enter)), Effect::Save);
    let expected = Json::Object(vec![
        (s("permissions"), Json::Object(vec![(s("allow"), strs(&["A", "B"]))])),
        (s("other"), Json::Number(s("1"))),
    ]);
    assert_eq!(*session.document(), expected);
}

#[test]
fn scenario_c_missing_local_file_exits_with_one() {
    assert_eq!(Outcome::LocalMissing.exit_code(), 1);
}

#[test]
fn scenario_d_no_entries_means_no_session() {
    let local = Json::Object(vec![(s("permissions"), Json::Object(vec![]))]);
    let entries = read_allow_from_value(&local);
    assert!(entries.is_empty());
    assert!(Session::new(entries, Json::Object(vec![])).is_none());
    let empty = Json::Object(vec![(
        s("permissions"),
        Json::Object(vec![(s("allow"), strs(&[]))]),
    )]);
    assert!(Session::new(read_allow_from_value(&empty), Json::Object(vec![])).is_none());
    assert_eq!(Outcome::NothingToPromote.exit_code(), 0);
}

#[test]
fn moving_clears_status() {
    let mut session = Session::new(list(&["A", "B"]), Json::Object(vec![])).unwrap();
    assert_eq!(session.handle(press(Key::Char('j'))), Effect::Redraw);
    assert_eq!(session.selection().cursor(), 1);
    assert_eq!(session.handle(press(Key::Enter)), Effect::Save);
    assert!(session.status().is_some());
    assert_eq!(session.handle(press(Key::Char('k'))), Effect::Redraw);
    assert_eq!(session.selection().cursor(), 0);
    assert_eq!(*session.status(), None);
    assert_eq!(read_allow_from_value(session.document()), list(&["B"]));
}

#[test]
fn other_keys_change_nothing() {
    let mut session = Session::new(list(&["A", "B"]), Json::Object(vec![])).unwrap();
    assert_eq!(session.handle(press(Key::Char('x'))), Effect::Redraw);
    assert_eq!(session.handle(press(Key::Other)), Effect::Redraw);
    assert_eq!(session.handle(ctrl(Key::Char('q'))), Effect::Redraw);
    assert_eq!(session.selection().cursor(), 0);
    assert_eq!(*session.document(), Json::Object(vec![]));
}

#[test]
fn confirm_on_unmergeable_document_aborts() {
    let mut session = Session::new(list(&["A"]), Json::Null).unwrap();
    assert_eq!(session.handle(press(Key::Enter)), Effect::Abort(MergeError::DocumentNotObject));
    assert!(session.selection().promoted().is_empty());
    let doc = Json::Object(vec![(s("permissions"), strs(&["A"]))]);
    let mut session = Session::new(list(&["A"]), doc).unwrap();
    assert_eq!(session.handle(press(Key::Enter)), Effect::Abort(MergeError::PermissionsNotObject));
    assert_eq!(*session.status(), None);
}

#[test]
fn key_commands() {
    assert_eq!(command_for(press(Key::Char('q'))), Command::Quit);
    assert_eq!(command_for(ctrl(Key::Char('c'))), Command::Quit);
    assert_eq!(command_for(press(Key::Char('c'))), Command::Ignore);
    assert_eq!(command_for(ctrl(Key::Char('q'))), Command::Ignore);
    let shifted_q = KeyPress { key: Key::Char('q'), control: false, other_modifiers: true };
    assert_eq!(command_for(shifted_q), Command::Ignore);
    let ctrl_alt_c = KeyPress { key: Key::Char('c'), control: true, other_modifiers: true };
    assert_eq!(command_for(ctrl_alt_c), Command::Ignore);
    assert_eq!(command_for(ctrl(Key::Esc)), Command::Quit);
    assert_eq!(command_for(press(Key::Up)), Command::Up);
    assert_eq!(command_for(ctrl(Key::Char('k'))), Command::Up);
    assert_eq!(command_for(press(Key::Down)), Command::Down);
    assert_eq!(command_for(press(Key::Char('j'))), Command::Down);
    assert_eq!(command_for(press(Key::Enter)), Command::Confirm);
    assert_eq!(command_for(press(Key::Other)), Command::Ignore);
}
