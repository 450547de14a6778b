use vstd::math::min;
use vstd::prelude::*;

verus! {

/// The mathematical content of an editable list: its entries in order, the
/// selected index, and the single-slot register that holds the entry removed
/// last.
pub struct ListState<T> {
    pub items: Seq<T>,
    pub cursor: nat,
    pub register: Option<T>,
}

impl<T> ListState<T> {
    /// The cursor invariant: a non-empty list always has a selected entry.
    /// On an empty list the cursor is unconstrained.
    pub open spec fn wf(self) -> bool {
        self.items.len() > 0 ==> self.cursor < self.items.len()
    }

    /// The index that the editing operations act on: the cursor, clamped to
    /// the last entry. Meaningful on a non-empty list only.
    pub open spec fn current(self) -> int {
        if self.cursor < self.items.len() {
            self.cursor as int
        } else {
            self.items.len() - 1
        }
    }

    /// One step towards the head; stops at the first entry.
    pub open spec fn moved_up(self) -> Self {
        if self.items.len() == 0 || self.cursor == 0 {
            self
        } else {
            ListState { cursor: (self.cursor - 1) as nat, ..self }
        }
    }

    /// One step towards the tail; stops at the last entry.
    pub open spec fn moved_down(self) -> Self {
        if self.items.len() == 0 {
            self
        } else if self.cursor + 1 < self.items.len() {
            ListState { cursor: self.cursor + 1, ..self }
        } else {
            ListState { cursor: (self.items.len() - 1) as nat, ..self }
        }
    }

    /// The slot that an entry inserted after `position` lands in. A position
    /// at or beyond the last entry appends.
    pub open spec fn slot_after(self, position: nat) -> nat {
        if position + 1 < self.items.len() {
            position + 1
        } else {
            self.items.len()
        }
    }

    /// `item` placed directly after `position` (after the cursor when no
    /// position is given) and selected.
    pub open spec fn inserted(self, item: T, position: Option<usize>) -> Self {
        let after = match position {
            Some(p) => p as nat,
            None => self.cursor,
        };
        let slot = self.slot_after(after);
        ListState { items: self.items.insert(slot as int, item), cursor: slot, register: self.register }
    }

    /// The selected entry moved into the register. The cursor stays on the
    /// same slot unless that slot was the last one.
    pub open spec fn removed(self) -> Self {
        if self.items.len() == 0 {
            self
        } else {
            let index = self.current();
            ListState {
                items: self.items.remove(index),
                cursor: if self.items.len() >= 2 {
                    min(index, self.items.len() - 2) as nat
                } else {
                    0
                },
                register: Some(self.items[index]),
            }
        }
    }

    /// A copy of the register's entry inserted after the cursor. The register
    /// keeps its entry.
    pub open spec fn pasted(self) -> Self {
        match self.register {
            Some(item) => self.inserted(item, None),
            None => self,
        }
    }
}

/// One cursor or content operation of an editable list.
pub enum ListOp<T> {
    Up,
    Down,
    Insert { item: T, position: Option<usize> },
    Remove,
    Paste,
}

impl<T> ListState<T> {
    /// The state after one operation.
    pub open spec fn step(self, op: ListOp<T>) -> Self {
        match op {
            ListOp::Up => self.moved_up(),
            ListOp::Down => self.moved_down(),
            ListOp::Insert { item, position } => self.inserted(item, position),
            ListOp::Remove => self.removed(),
            ListOp::Paste => self.pasted(),
        }
    }

    /// The state after `ops`, applied first to last.
    pub open spec fn run(self, ops: Seq<ListOp<T>>) -> Self
        decreases ops.len(),
    {
        if ops.len() == 0 {
            self
        } else {
            self.run(ops.drop_last()).step(ops.last())
        }
    }

    /// A single operation keeps the cursor on an entry.
    pub proof fn step_keeps_cursor_in_range(self, op: ListOp<T>)
        requires
            self.wf(),
        ensures
            self.step(op).wf(),
    {
    }

    /// Whatever sequence of moves, insertions, removals and pastes is
    /// applied, the cursor of a non-empty list stays between `0` and
    /// `len - 1`.
    pub proof fn cursor_stays_in_range(self, ops: Seq<ListOp<T>>)
        requires
            self.wf(),
        ensures
            self.run(ops).wf(),
        decreases ops.len(),
    {
        if ops.len() > 0 {
            self.cursor_stays_in_range(ops.drop_last());
            self.run(ops.drop_last()).step_keeps_cursor_in_range(ops.last());
        }
    }

    /// Removing the only entry empties the list, puts that entry into the
    /// register and leaves the cursor at `0`.
    pub proof fn removing_the_only_entry(self)
        requires
            self.items.len() == 1,
        ensures
            self.removed().items.len() == 0,
            self.removed().register == Some(self.items[0]),
            self.removed().cursor == 0,
    {
    }

    /// After a removal, a paste puts the removed entry back into the list,
    /// directly after the cursor, and selects it. The register still holds
    /// the entry, so a second paste inserts it once more.
    pub proof fn paste_repeats_the_removed_entry(self)
        requires
            self.items.len() > 0,
        ensures
            ({
                let taken = self.items[self.current()];
                let gone = self.removed();
                let once = gone.pasted();
                let twice = once.pasted();
                &&& gone.register == Some(taken)
                &&& once == gone.inserted(taken, None)
                &&& once.register == Some(taken)
                &&& once.items.len() == gone.items.len() + 1
                &&& once.items[once.cursor as int] == taken
                &&& twice == once.inserted(taken, None)
                &&& twice.register == Some(taken)
                &&& twice.items.len() == gone.items.len() + 2
                &&& twice.items[twice.cursor as int] == taken
            }),
    {
    }
}

impl<T: ListEntry> ListState<T> {
    /// Whether leaving edit mode finds the selected entry abandoned: it is
    /// there, and its text is empty.
    pub open spec fn abandoned(self) -> bool {
        self.items.len() > 0 && self.items[self.current()].text().len() == 0
    }

    /// The state when editing ends. An abandoned entry is removed as by
    /// `removed`, and the cursor then moves one slot further up, stopping at
    /// the first. Any other state is kept as it is.
    pub open spec fn committed(self) -> Self {
        if self.abandoned() {
            let gone = self.removed();
            ListState { cursor: if gone.cursor > 0 { (gone.cursor - 1) as nat } else { 0 }, ..gone }
        } else {
            self
        }
    }

    /// Ending the edit of an entry with an empty text removes that entry
    /// into the register. The cursor then stands one slot above the place
    /// where a plain removal would leave it: on the slot before the removed
    /// one, or two before it when the removed entry was the last, and never
    /// above the first slot. With a non-empty text nothing changes. Either
    /// way the cursor stays in range.
    pub proof fn commit_drops_an_abandoned_entry(self)
        requires
            self.wf(),
        ensures
            self.committed().wf(),
            !self.abandoned() ==> self.committed() == self,
            self.abandoned() ==> {
                &&& self.committed().items == self.items.remove(self.cursor as int)
                &&& self.committed().register == Some(self.items[self.cursor as int])
                &&& self.committed().cursor == if self.cursor == 0 {
                    0
                } else if self.cursor + 1 < self.items.len() {
                    self.cursor - 1
                } else if self.cursor >= 2 {
                    self.cursor - 2
                } else {
                    0
                }
            },
    {
    }
}

/// What an editable list asks of its entries: a text that can be edited, a
/// line to show, and a way to copy an entry into and out of the register.
pub trait ListEntry: Sized {
    /// The text that character-level editing acts on.
    spec fn text(&self) -> Seq<char>;

    /// The line that stands for the entry on screen.
    spec fn rendered(&self) -> Seq<char>;

    /// `self` is `before` with `text` as its text and nothing else changed.
    spec fn is_edit_of(&self, before: &Self, text: Seq<char>) -> bool;

    /// A copy of the entry, as the register takes and gives it.
    fn duplicate(&self) -> (copy: Self)
        ensures
            copy == *self,
    ;

    /// The line that stands for the entry on screen.
    fn render(&self) -> (line: String)
        ensures
            line@ == self.rendered(),
    ;
}

/// `after` is `before` with the text of the entry at `index` replaced by
/// `text`; every other entry, and everything else about that entry, is kept.
pub open spec fn edited_at<T: ListEntry>(before: Seq<T>, after: Seq<T>, index: int, text: Seq<char>) -> bool {
    &&& after.len() == before.len()
    &&& forall|i: int| 0 <= i < before.len() && i != index ==> after[i] == before[i]
    &&& after[index].is_edit_of(&before[index], text)
}

/// An ordered list with a cursor and a register, edited in place.
pub trait ListView<T: ListEntry>: Sized {
    /// The list as a mathematical value.
    spec fn state(&self) -> ListState<T>;

    /// How the list arranges its entries when editing ends: `after` is the
    /// arrangement of `before`.
    spec fn settles(before: Seq<T>, after: Seq<T>) -> bool;

    // the parts of the list
    /// The cursor.
    fn selection_pointer(&mut self) -> (pointer: &mut usize)
        ensures
            *pointer == old(self).state().cursor,
            final(self).state() == (ListState { cursor: *final(pointer) as nat, ..old(self).state() }),
    ;

    /// The entries.
    fn list(&mut self) -> (list: &mut Vec<T>)
        ensures
            list@ == old(self).state().items,
            final(self).state() == (ListState { items: final(list)@, ..old(self).state() }),
    ;

    /// The register.
    fn register(&mut self) -> (register: &mut Option<T>)
        ensures
            *register == old(self).state().register,
            final(self).state() == (ListState { register: *final(register), ..old(self).state() }),
    ;

    // specific input handling
    /// Drops the last character of the selected entry's text. Nothing
    /// happens on an empty list or an empty text.
    fn backspace(&mut self)
        ensures
            final(self).state().cursor == old(self).state().cursor,
            final(self).state().register == old(self).state().register,
            old(self).state().items.len() == 0 ==> final(self).state().items == old(self).state().items,
            old(self).state().items.len() > 0 ==> edited_at(
                old(self).state().items,
                final(self).state().items,
                old(self).state().current(),
                if old(self).state().items[old(self).state().current()].text().len() > 0 {
                    old(self).state().items[old(self).state().current()].text().drop_last()
                } else {
                    old(self).state().items[old(self).state().current()].text()
                },
            ),
    ;

    /// Appends `chr` to the selected entry's text. Nothing happens on an
    /// empty list.
    fn append_to_current(&mut self, chr: char)
        ensures
            final(self).state().cursor == old(self).state().cursor,
            final(self).state().register == old(self).state().register,
            old(self).state().items.len() == 0 ==> final(self).state().items == old(self).state().items,
            old(self).state().items.len() > 0 ==> edited_at(
                old(self).state().items,
                final(self).state().items,
                old(self).state().current(),
                old(self).state().items[old(self).state().current()].text().push(chr),
            ),
    ;

    /// Leaves edit mode: an entry left with an empty text is dropped, and
    /// the list arranges its entries.
    fn normal_mode(&mut self)
        ensures
            final(self).state().cursor == old(self).state().committed().cursor,
            final(self).state().register == old(self).state().committed().register,
            Self::settles(old(self).state().committed().items, final(self).state().items),
    ;

    // selection manipulation
    /// Moves the cursor one entry up; it stops at the first entry.
    fn selection_up(&mut self)
        ensures
            final(self).state() == old(self).state().moved_up(),
    {
        if self.list().is_empty() {
            return ;
        }
        let pointer = self.selection_pointer();
        *pointer = pointer.saturating_sub(1);
    }

    /// Moves the cursor one entry down; it stops at the last entry.
    fn selection_down(&mut self)
        ensures
            final(self).state() == old(self).state().moved_down(),
    {
        let len = self.list().len();
        if len == 0 {
            return ;
        }
        let pointer = self.selection_pointer();
        if *pointer < len - 1 {
            *pointer = *pointer + 1;
        } else {
            *pointer = len - 1;
        }
    }

    // adding/removing elements
    /// Puts `item` directly after `position`, or after the cursor when no
    /// position is given, and selects it. A position at or beyond the last
    /// entry appends.
    fn insert(&mut self, item: T, position: Option<usize>)
        ensures
            final(self).state() == old(self).state().inserted(item, position),
    {
        let pos = match position {
            Some(p) => p,
            None => *self.selection_pointer(),
        };
        let len = self.list().len();
        if pos >= len.saturating_sub(1) {
            self.list().push(item);
            *self.selection_pointer() = len;
            assert(old(self).state().items.push(item) =~= old(self).state().items.insert(
                len as int,
                item,
            ));
        } else {
            self.list().insert(pos + 1, item);
            *self.selection_pointer() = pos + 1;
        }
    }

    /// Moves the selected entry into the register. Nothing happens on an
    /// empty list.
    fn remove_current(&mut self)
        ensures
            final(self).state() == old(self).state().removed(),
    {
        let len = self.list().len();
        if len == 0 {
            return ;
        }
        let selected = *self.selection_pointer();
        let index = if selected < len { selected } else { len - 1 };
        let clamped = len.saturating_sub(2);
        *self.selection_pointer() = if index < clamped { index } else { clamped };
        let removed = self.list().remove(index);
        *self.register() = Some(removed);
    }

    /// Inserts a copy of the register's entry after the cursor. The register
    /// keeps its entry, so that it can be pasted again.
    fn paste(&mut self)
        ensures
            final(self).state() == old(self).state().pasted(),
    {
        let copy = match self.register() {
            Some(item) => Some(item.duplicate()),
            None => None,
        };
        if let Some(item) = copy {
            self.insert(item, None);
        }
    }

    // printing
    /// The line of every entry, in order.
    fn printable(&mut self) -> (lines: Vec<String>)
        ensures
            final(self).state() == old(self).state(),
            lines.len() == old(self).state().items.len(),
            forall|i: int| 0 <= i < lines.len() ==> lines[i]@ == old(self).state().items[i].rendered(),
    {
        let mut lines: Vec<String> = Vec::new();
        let len = self.list().len();
        let mut i: usize = 0;
        while i < len
            invariant
                i <= len,
                len == self.state().items.len(),
                self.state() == old(self).state(),
                lines.len() == i,
                forall|k: int| 0 <= k < i ==> lines[k]@ == self.state().items[k].rendered(),
            decreases len - i,
        {
            let line = self.list()[i].render();
            lines.push(line);
            i = i + 1;
        }
        lines
    }
}

} // verus!
