use vstd::prelude::*;
use crate::json::texts;

verus! {

/// What `promote` did.
#[derive(Clone, Copy, Debug, PartialEq, Eq, Structural)]
pub enum Promotion {
    /// The entry was added to the promoted list; the caller should persist it.
    Promoted,
    /// The entry was already in the promoted list; nothing changed.
    AlreadyPromoted,
}

/// The abstract state of a selection list.
pub struct SelectionView {
    /// The candidate entries, in order.
    pub items: Seq<Seq<char>>,
    /// The entries that are promoted, in the order they were added.
    pub promoted: Seq<Seq<char>>,
    /// The selected row.
    pub cursor: nat,
}

/// Where the cursor lands after moving up one row: one row up, floored at the first.
pub open spec fn cursor_up(cursor: nat) -> nat {
    if cursor == 0 {
        0
    } else {
        (cursor - 1) as nat
    }
}

/// Where the cursor lands after moving down one row in a list of `len` rows: one
/// row down, capped at the last.
pub open spec fn cursor_down(cursor: nat, len: nat) -> nat {
    if cursor + 1 < len {
        cursor + 1
    } else {
        cursor
    }
}

/// The effect of promoting row `i`: its entry is appended to the promoted list
/// unless it is already there.
pub open spec fn promote_spec(v: SelectionView, i: int) -> (SelectionView, Promotion) {
    if v.promoted.contains(v.items[i]) {
        (v, Promotion::AlreadyPromoted)
    } else {
        (
            SelectionView { items: v.items, promoted: v.promoted.push(v.items[i]), cursor: v.cursor },
            Promotion::Promoted,
        )
    }
}

/// Promoting the same row a second time reports `AlreadyPromoted` and changes
/// nothing; a promotion that does happen adds an entry that was not yet there, so
/// the promoted list gains no duplicate.
pub proof fn lemma_promote_idempotent(v: SelectionView, i: int)
    requires
        0 <= i < v.items.len(),
    ensures
        ({
            let (v1, o1) = promote_spec(v, i);
            let (v2, o2) = promote_spec(v1, i);
            &&& o2 == Promotion::AlreadyPromoted
            &&& v2 == v1
            &&& o1 == Promotion::Promoted ==> !v.promoted.contains(v.items[i]) && v1.promoted
                == v.promoted.push(v.items[i])
            &&& o1 == Promotion::AlreadyPromoted ==> v1 == v
        }),
{
    let v1 = promote_spec(v, i).0;
    if !v.promoted.contains(v.items[i]) {
        assert(v1.promoted[v.promoted.len() as int] == v.items[i]);
    }
}

/// A list of candidate entries with a cursor, and the entries promoted so far.
pub struct Selection {
    items: Vec<String>,
    promoted: Vec<String>,
    cursor: usize,
}

impl View for Selection {
    type V = SelectionView;

    closed spec fn view(&self) -> SelectionView {
        SelectionView {
            items: texts(self.items@),
            promoted: texts(self.promoted@),
            cursor: self.cursor as nat,
        }
    }
}

impl Selection {
    /// The list has a row and the cursor is on one.
    pub open spec fn wf(&self) -> bool {
        self@.cursor < self@.items.len()
    }

    /// A selection over `items` with the cursor on the first row, and `promoted`
    /// as the entries already promoted. There is none when `items` is empty.
    pub fn new(items: Vec<String>, promoted: Vec<String>) -> (r: Option<Selection>)
        ensures
            r is None <==> items@.len() == 0,
            r matches Some(s) ==> {
                &&& s.wf()
                &&& s@.items == texts(items@)
                &&& s@.promoted == texts(promoted@)
                &&& s@.cursor == 0
            },
    {
        if items.len() == 0 {
            None
        } else {
            Some(Selection { items, promoted, cursor: 0 })
        }
    }

    /// The entries, in order.
    pub fn items(&self) -> (r: &Vec<String>)
        ensures
            texts(r@) == self@.items,
    {
        &self.items
    }

    /// The promoted entries, in the order they were added.
    pub fn promoted(&self) -> (r: &Vec<String>)
        ensures
            texts(r@) == self@.promoted,
    {
        &self.promoted
    }

    /// The selected row.
    pub fn cursor(&self) -> (r: usize)
        ensures
            r == self@.cursor,
    {
        self.cursor
    }

    /// Moves the cursor up one row; on the first row it stays.
    pub fn move_up(&mut self)
        requires
            old(self).wf(),
        ensures
            final(self).wf(),
            final(self)@ == (SelectionView { cursor: cursor_up(old(self)@.cursor), ..old(self)@ }),
            old(self)@.cursor == 0 ==> final(self)@ == old(self)@,
    {
        if self.cursor > 0 {
            self.cursor = self.cursor - 1;
        }
    }

    /// Moves the cursor down one row; on the last row it stays.
    pub fn move_down(&mut self)
        requires
            old(self).wf(),
        ensures
            final(self).wf(),
            final(self)@ == (SelectionView {
                cursor: cursor_down(old(self)@.cursor, old(self)@.items.len()),
                ..old(self)@
            }),
            old(self)@.cursor + 1 == old(self)@.items.len() ==> final(self)@ == old(self)@,
    {
        assert(self.items@.len() == self@.items.len());
        if self.cursor < self.items.len() - 1 {
            self.cursor = self.cursor + 1;
        }
    }

    /// Whether the entry of row `i` is among the promoted entries.
    pub fn is_promoted(&self, i: usize) -> (r: bool)
        requires
            i < self@.items.len(),
        ensures
            r == self@.promoted.contains(self@.items[i as int]),
    {
        let item = &self.items[i];
        let mut j: usize = 0;
        while j < self.promoted.len()
            invariant
                i < self.items@.len(),
                *item == self.items@[i as int],
                j <= self.promoted@.len(),
                forall|m: int| 0 <= m < j ==> self.promoted@[m]@ != self.items@[i as int]@,
            decreases self.promoted@.len() - j,
        {
            if self.promoted[j] == *item {
                assert(self@.promoted[j as int] == self@.items[i as int]);
                return true;
            }
            j = j + 1;
        }
        assert(!self@.promoted.contains(self@.items[i as int])) by {
            assert forall|m: int| 0 <= m < self@.promoted.len() implies self@.promoted[m]
                != self@.items[i as int] by {
                assert(self.promoted@[m]@ != self.items@[i as int]@);
            }
        }
        false
    }

    /// Promotes the entry of row `i`: appends it to the promoted entries unless it
    /// is already there.
    pub fn promote(&mut self, i: usize) -> (r: Promotion)
        requires
            old(self).wf(),
            i < old(self)@.items.len(),
        ensures
            final(self).wf(),
            (final(self)@, r) == promote_spec(old(self)@, i as int),
    {
        if self.is_promoted(i) {
            Promotion::AlreadyPromoted
        } else {
            let item = self.items[i].clone();
            let ghost before = self.promoted@;
            self.promoted.push(item);
            assert(texts(self.promoted@) =~= texts(before).push(item@));
            Promotion::Promoted
        }
    }
}

} // verus!
