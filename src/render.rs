use vstd::prelude::*;
use crate::json::texts;
use crate::session::{Session, Status, StatusKind};

verus! {

/// One line of the list on screen.
#[derive(Clone, Debug, PartialEq, Eq)]
pub struct Row {
    pub text: String,
    /// The row is the selected one, drawn in inverted colours.
    pub highlighted: bool,
}

/// The text of a row: a cursor marker (`>` on the selected row), the promoted
/// marker (`[✓]` or `[ ]`), then the entry.
pub open spec fn row_spec(selected: bool, promoted: bool, entry: Seq<char>) -> Seq<char> {
    " "@ + (if selected {
        ">"@
    } else {
        " "@
    }) + " "@ + (if promoted {
        "[✓]"@
    } else {
        "[ ]"@
    }) + " "@ + entry
}

/// The text of the status message of a confirm on `entry`.
pub open spec fn status_message(kind: StatusKind, entry: Seq<char>) -> Seq<char> {
    match kind {
        StatusKind::AlreadyGlobal => "\""@ + entry + "\" is already global"@,
        StatusKind::Added => "Added \""@ + entry + "\" to global settings"@,
    }
}

/// The text of a row (see `row_spec`).
pub fn row_text(selected: bool, promoted: bool, entry: &String) -> (r: String)
    ensures
        r@ == row_spec(selected, promoted, entry@),
{
    let mut r = " ".to_owned();
    r.append(
        if selected {
            ">"
        } else {
            " "
        },
    );
    r.append(" ");
    r.append(
        if promoted {
            "[✓]"
        } else {
            "[ ]"
        },
    );
    r.append(" ");
    r.append(entry.as_str());
    r
}

/// The text of a status message (see `status_message`).
pub fn status_text(status: &Status) -> (r: String)
    ensures
        r@ == status_message(status.kind, status.entry@),
{
    match status.kind {
        StatusKind::AlreadyGlobal => {
            let mut r = "\"".to_owned();
            r.append(status.entry.as_str());
            r.append("\" is already global");
            r
        },
        StatusKind::Added => {
            let mut r = "Added \"".to_owned();
            r.append(status.entry.as_str());
            r.append("\" to global settings");
            r
        },
    }
}

/// The rows of the list, one per entry, in order: the selected one highlighted,
/// each marked as promoted or not.
pub fn rows(session: &Session) -> (r: Vec<Row>)
    requires
        session.wf(),
    ensures
        r@.len() == session@.selection.items.len(),
        forall|i: int|
            0 <= i < r@.len() ==> {
                let v = session@.selection;
                &&& (#[trigger] r@[i]).highlighted == (i == v.cursor)
                &&& r@[i].text@ == row_spec(
                    i == v.cursor,
                    v.promoted.contains(v.items[i]),
                    v.items[i],
                )
            },
{
    let selection = session.selection();
    let items = selection.items();
    let cursor = selection.cursor();
    let mut r: Vec<Row> = Vec::new();
    let mut i: usize = 0;
    while i < items.len()
        invariant
            selection@ == session@.selection,
            texts(items@) == selection@.items,
            cursor == selection@.cursor,
            i <= items@.len(),
            r@.len() == i,
            forall|m: int|
                0 <= m < i ==> {
                    let v = session@.selection;
                    &&& (#[trigger] r@[m]).highlighted == (m == v.cursor)
                    &&& r@[m].text@ == row_spec(
                        m == v.cursor,
                        v.promoted.contains(v.items[m]),
                        v.items[m],
                    )
                },
        decreases items@.len() - i,
    {
        let selected = i == cursor;
        let promoted = selection.is_promoted(i);
        let text = row_text(selected, promoted, &items[i]);
        r.push(Row { text, highlighted: selected });
        i = i + 1;
    }
    r
}

} // verus!
