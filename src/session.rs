use vstd::prelude::*;
use crate::json::{
    allow_list,
    check_mergeable,
    lemma_written_list_reads_back,
    merge_error,
    read_allow_from_value,
    texts,
    write_allow_to_value,
    written,
    Json,
    MergeError,
};
use crate::selection::{
    cursor_down,
    cursor_up,
    lemma_promote_idempotent,
    promote_spec,
    Promotion,
    Selection,
    SelectionView,
};

verus! {

/// The key of a key press.
#[derive(Clone, Copy, Debug, PartialEq, Eq, Structural)]
pub enum Key {
    Char(char),
    Up,
    Down,
    Enter,
    Esc,
    /// Any other key.
    Other,
}

/// A key press with the modifiers held: `control` for the control key,
/// `other_modifiers` for any other (shift, alt, ...).
#[derive(Clone, Copy, Debug, PartialEq, Eq, Structural)]
pub struct KeyPress {
    pub key: Key,
    pub control: bool,
    pub other_modifiers: bool,
}

/// What a key press asks of the session.
#[derive(Clone, Copy, Debug, PartialEq, Eq, Structural)]
pub enum Command {
    Quit,
    Up,
    Down,
    Confirm,
    Ignore,
}

/// `q` with no modifier, control-`c` alone and `Esc` quit; the arrow keys and
/// `k` / `j` move; `Enter` confirms; anything else is ignored.
pub open spec fn command_spec(k: KeyPress) -> Command {
    let plain = !k.control && !k.other_modifiers;
    let control_only = k.control && !k.other_modifiers;
    match k.key {
        Key::Char(c) => if c == 'q' && plain {
            Command::Quit
        } else if c == 'c' && control_only {
            Command::Quit
        } else if c == 'k' {
            Command::Up
        } else if c == 'j' {
            Command::Down
        } else {
            Command::Ignore
        },
        Key::Esc => Command::Quit,
        Key::Up => Command::Up,
        Key::Down => Command::Down,
        Key::Enter => Command::Confirm,
        Key::Other => Command::Ignore,
    }
}

/// The command that a key press asks for.
pub fn command_for(k: KeyPress) -> (r: Command)
    ensures
        r == command_spec(k),
{
    let plain = !k.control && !k.other_modifiers;
    let control_only = k.control && !k.other_modifiers;
    match k.key {
        Key::Char(c) => {
            if c == 'q' && plain {
                Command::Quit
            } else if c == 'c' && control_only {
                Command::Quit
            } else if c == 'k' {
                Command::Up
            } else if c == 'j' {
                Command::Down
            } else {
                Command::Ignore
            }
        },
        Key::Esc => Command::Quit,
        Key::Up => Command::Up,
        Key::Down => Command::Down,
        Key::Enter => Command::Confirm,
        Key::Other => Command::Ignore,
    }
}

/// The kind of the status message shown after a confirm.
#[derive(Clone, Copy, Debug, PartialEq, Eq, Structural)]
pub enum StatusKind {
    /// The entry was already in the global list.
    AlreadyGlobal,
    /// The entry was added to the global list.
    Added,
}

/// The status message of the last confirm, about `entry`.
#[derive(Clone, Debug, PartialEq, Eq)]
pub struct Status {
    pub kind: StatusKind,
    pub entry: String,
}

/// What the caller does after a step.
#[derive(Clone, Copy, Debug, PartialEq, Eq, Structural)]
pub enum Effect {
    /// Leave the session.
    Exit,
    /// Draw the screen again.
    Redraw,
    /// Write the document to the global settings file, then draw again.
    Save,
    /// The document cannot take the permission list; leave with this error.
    Abort(MergeError),
}

/// The abstract state of a session.
pub struct SessionView {
    pub selection: SelectionView,
    pub status: Option<(StatusKind, Seq<char>)>,
    pub document: Json,
}

/// The step of a session in state `v` on `cmd`, to state `w` with effect `e`.
pub open spec fn step(v: SessionView, cmd: Command, w: SessionView, e: Effect) -> bool {
    match cmd {
        Command::Quit => w == v && e == Effect::Exit,
        Command::Ignore => w == v && e == Effect::Redraw,
        Command::Up => {
            &&& w == SessionView {
                selection: SelectionView { cursor: cursor_up(v.selection.cursor), ..v.selection },
                status: None,
                document: v.document,
            }
            &&& e == Effect::Redraw
        },
        Command::Down => {
            &&& w == SessionView {
                selection: SelectionView {
                    cursor: cursor_down(v.selection.cursor, v.selection.items.len()),
                    ..v.selection
                },
                status: None,
                document: v.document,
            }
            &&& e == Effect::Redraw
        },
        Command::Confirm => {
            let i = v.selection.cursor as int;
            let entry = v.selection.items[i];
            let (sel, o) = promote_spec(v.selection, i);
            if o == Promotion::AlreadyPromoted {
                &&& w == SessionView { status: Some((StatusKind::AlreadyGlobal, entry)), ..v }
                &&& e == Effect::Redraw
            } else {
                match merge_error(v.document) {
                    Some(err) => w == v && e == Effect::Abort(err),
                    None => {
                        &&& w.selection == sel
                        &&& w.status == Some((StatusKind::Added, entry))
                        &&& written(v.document, w.document, sel.promoted)
                        &&& e == Effect::Save
                    },
                }
            }
        },
    }
}

/// Confirming the same row twice writes the file at most once: the second confirm
/// never asks to save, and leaves the entries and the document as the first left
/// them. Where the first went through, the second reports the entry as already
/// global.
pub proof fn lemma_confirm_twice(
    v: SessionView,
    v1: SessionView,
    e1: Effect,
    v2: SessionView,
    e2: Effect,
)
    requires
        v.selection.cursor < v.selection.items.len(),
        step(v, Command::Confirm, v1, e1),
        step(v1, Command::Confirm, v2, e2),
    ensures
        e2 != Effect::Save,
        v2.selection == v1.selection,
        v2.document == v1.document,
        !(e1 is Abort) ==> e2 == Effect::Redraw && v2.status == Some(
            (StatusKind::AlreadyGlobal, v.selection.items[v.selection.cursor as int]),
        ),
{
    lemma_promote_idempotent(v.selection, v.selection.cursor as int);
}

/// An interactive session: the selection list, the status message of the last
/// confirm, and the global settings document, whose permission list is always the
/// list of promoted entries.
pub struct Session {
    selection: Selection,
    status: Option<Status>,
    document: Json,
}

impl View for Session {
    type V = SessionView;

    closed spec fn view(&self) -> SessionView {
        SessionView {
            selection: self.selection@,
            status: match self.status {
                Some(s) => Some((s.kind, s.entry@)),
                None => None,
            },
            document: self.document,
        }
    }
}

impl Session {
    /// The cursor is on a row, and the document's permission list is the list of
    /// promoted entries.
    pub open spec fn wf(&self) -> bool {
        &&& self@.selection.cursor < self@.selection.items.len()
        &&& allow_list(self@.document) == self@.selection.promoted
    }

    /// A session over the local entries `local`, with `document` as the global
    /// settings: the cursor on the first row, no status, and the document's
    /// permission list as the promoted entries. There is none when `local` is
    /// empty.
    pub fn new(local: Vec<String>, document: Json) -> (r: Option<Session>)
        ensures
            r is None <==> local@.len() == 0,
            r matches Some(s) ==> {
                &&& s.wf()
                &&& s@.selection.items == texts(local@)
                &&& s@.selection.promoted == allow_list(document)
                &&& s@.selection.cursor == 0
                &&& s@.status is None
                &&& s@.document == document
            },
    {
        let promoted = read_allow_from_value(&document);
        match Selection::new(local, promoted) {
            Some(selection) => Some(Session { selection, status: None, document }),
            None => None,
        }
    }

    /// The selection list.
    pub fn selection(&self) -> (r: &Selection)
        ensures
            r@ == self@.selection,
    {
        &self.selection
    }

    /// The status message of the last confirm, if the cursor has not moved since.
    pub fn status(&self) -> (r: &Option<Status>)
        ensures
            match *r {
                Some(s) => self@.status == Some((s.kind, s.entry@)),
                None => self@.status is None,
            },
    {
        &self.status
    }

    /// The global settings document.
    pub fn document(&self) -> (r: &Json)
        ensures
            *r == self@.document,
    {
        &self.document
    }

    /// Handles one key press (see `step`).
    pub fn handle(&mut self, k: KeyPress) -> (e: Effect)
        requires
            old(self).wf(),
        ensures
            final(self).wf(),
            step(old(self)@, command_spec(k), final(self)@, e),
    {
        match command_for(k) {
            Command::Quit => Effect::Exit,
            Command::Ignore => Effect::Redraw,
            Command::Up => {
                self.selection.move_up();
                self.status = None;
                Effect::Redraw
            },
            Command::Down => {
                self.selection.move_down();
                self.status = None;
                Effect::Redraw
            },
            Command::Confirm => self.confirm(),
        }
    }

    fn confirm(&mut self) -> (e: Effect)
        requires
            old(self).wf(),
        ensures
            final(self).wf(),
            step(old(self)@, Command::Confirm, final(self)@, e),
    {
        let i = self.selection.cursor();
        let entry = self.selection.items()[i].clone();
        if self.selection.is_promoted(i) {
            self.status = Some(Status { kind: StatusKind::AlreadyGlobal, entry });
            return Effect::Redraw;
        }
        if let Err(err) = check_mergeable(&self.document) {
            return Effect::Abort(err);
        }
        let ghost d0 = self.document;
        self.selection.promote(i);
        let _ = write_allow_to_value(&mut self.document, self.selection.promoted());
        proof {
            lemma_written_list_reads_back(d0, self.document, self.selection@.promoted);
        }
        self.status = Some(Status { kind: StatusKind::Added, entry });
        Effect::Save
    }
}

/// How a run of the tool ends.
#[derive(Clone, Copy, Debug, PartialEq, Eq, Structural)]
pub enum Outcome {
    /// There is no local settings file.
    LocalMissing,
    /// The local settings file lists no permission.
    NothingToPromote,
    /// The user left the session.
    Quit,
}

impl Outcome {
    /// The process exit status for this ending: 1 for a missing local file, 0
    /// otherwise.
    pub fn exit_code(&self) -> (r: i32)
        ensures
            r == (if *self == Outcome::LocalMissing {
                1i32
            } else {
                0i32
            }),
    {
        match self {
            Outcome::LocalMissing => 1,
            _ => 0,
        }
    }
}

} // verus!
