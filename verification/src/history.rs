//! Linear undo/redo history: a snapshot of the initial buffer, an ordered
//! sequence of recorded changes, and a version cursor. Replaying the first
//! `version` changes onto the snapshot reconstructs the buffer at that
//! point; undo and redo only move the version cursor.

use vstd::prelude::*;

verus! {

use crate::code::Code;
use crate::code::Line;
use crate::model::LineModel;
use crate::model::spec_change_line;

/// What a recorded change is mathematically: the number of the changed
/// line, its text before, and its text after.
#[verifier::ext_equal]
pub ghost struct ChangeModel {
    pub number: int,
    pub from: Seq<char>,
    pub to: Seq<char>,
}

/// A single recorded edit: line `number` went from text `from` to text `to`.
#[derive(Debug, PartialEq, Eq)]
pub struct Change {
    pub number: usize,
    pub from: String,
    pub to: String,
}

impl View for Change {
    type V = ChangeModel;

    open spec fn view(&self) -> ChangeModel {
        ChangeModel { number: self.number as int, from: self.from@, to: self.to@ }
    }
}

impl DeepView for Change {
    type V = ChangeModel;

    open spec fn deep_view(&self) -> ChangeModel {
        self@
    }
}

impl Clone for Change {
    fn clone(&self) -> (r: Change)
        ensures
            r == *self,
    {
        Change { number: self.number, from: self.from.clone(), to: self.to.clone() }
    }
}

impl Change {
    pub fn create_change_with_strings(number: usize, from: String, to: String) -> (r: Change)
        ensures
            r@ == (ChangeModel { number: number as int, from: from@, to: to@ }),
            r.number == number,
            r.from == from,
            r.to == to,
    {
        Change { number, from, to }
    }

    pub fn create_change_with_line(line: Line, to: String) -> (r: Change)
        ensures
            r@ == (ChangeModel { number: line@.number, from: line@.text, to: to@ }),
    {
        Change { number: line.get_number(), from: line.get_string(), to }
    }

    pub fn get_number(&self) -> (r: usize)
        ensures
            r == self.number,
    {
        self.number
    }

    pub fn get_from(&self) -> (r: &str)
        ensures
            r@ == self@.from,
    {
        self.from.as_str()
    }

    pub fn get_to(&self) -> (r: &str)
        ensures
            r@ == self@.to,
    {
        self.to.as_str()
    }

    /// The changed line as it stood before this change.
    pub fn get_old_line(&self) -> (r: Line)
        ensures
            r@ == (LineModel { number: self@.number, text: self@.from }),
    {
        Line::new(self.number, self.from.clone())
    }

    /// The changed line as it stands after this change.
    pub fn get_new_line(&self) -> (r: Line)
        ensures
            r@ == (LineModel { number: self@.number, text: self@.to }),
    {
        Line::new(self.number, self.to.clone())
    }
}

/// One change applied to a buffer: the first line with the change's number
/// gets the change's new text; absent lines mean nothing happens.
pub open spec fn apply_change(lines: Seq<LineModel>, ch: ChangeModel) -> Seq<LineModel> {
    spec_change_line(lines, ch.number, ch.to)
}

/// The buffer reached by applying the first `v` changes, in order, to the
/// initial snapshot.
pub open spec fn replay(initial: Seq<LineModel>, changes: Seq<ChangeModel>, v: int) -> Seq<
    LineModel,
>
    decreases v,
{
    if v <= 0 {
        initial
    } else {
        apply_change(replay(initial, changes, v - 1), changes[v - 1])
    }
}

/// What one `use_previous` does to the version cursor.
pub open spec fn spec_use_previous(v: int) -> int {
    if v > 0 {
        v - 1
    } else {
        0
    }
}

/// What one `use_next` does to the version cursor, with `n` changes
/// recorded.
pub open spec fn spec_use_next(v: int, n: int) -> int {
    if v < n {
        v + 1
    } else {
        v
    }
}

/// The version cursor after `k` consecutive `use_previous` calls.
pub open spec fn iter_previous(v: int, k: nat) -> int
    decreases k,
{
    if k == 0 {
        v
    } else {
        spec_use_previous(iter_previous(v, (k - 1) as nat))
    }
}

/// The version cursor after `k` consecutive `use_next` calls, with `n`
/// changes recorded.
pub open spec fn iter_next(v: int, n: int, k: nat) -> int
    decreases k,
{
    if k == 0 {
        v
    } else {
        spec_use_next(iter_next(v, n, (k - 1) as nat), n)
    }
}

/// Undo/redo round trip. After any `n` recorded changes the version cursor
/// stands at `n`; `n` calls of `use_previous` bring it to 0, where the
/// replayed buffer is byte-identical to the initial snapshot; `n` calls of
/// `use_next` (with no change added in between) bring it back to `n`, where
/// the replayed buffer is the latest content again.
pub proof fn lemma_undo_redo_round_trip(
    initial: Seq<LineModel>,
    changes: Seq<ChangeModel>,
    n: nat,
)
    requires
        n == changes.len(),
    ensures
        iter_previous(n as int, n) == 0,
        replay(initial, changes, 0) == initial,
        iter_next(0, n as int, n) == n as int,
    decreases n,
{
    lemma_iter_previous_value(n as int, n);
    lemma_iter_next_value(0, n as int, n);
}

/// Each `use_previous` takes one step toward 0 and stays there.
pub proof fn lemma_iter_previous_value(v: int, k: nat)
    requires
        v >= 0,
    ensures
        iter_previous(v, k) == if v - k >= 0 {
            v - k
        } else {
            0
        },
    decreases k,
{
    if k > 0 {
        lemma_iter_previous_value(v, (k - 1) as nat);
    }
}

/// Each `use_next` takes one step toward the end and stays there.
pub proof fn lemma_iter_next_value(v: int, n: int, k: nat)
    requires
        0 <= v <= n,
    ensures
        iter_next(v, n, k) == if v + k <= n {
            v + k
        } else {
            n
        },
    decreases k,
{
    if k > 0 {
        lemma_iter_next_value(v, n, (k - 1) as nat);
    }
}

/// Records a linear sequence of changes against an immutable snapshot of
/// the initial buffer; `version` tells how many of them count.
#[derive(Debug, PartialEq, Eq)]
pub struct CodeHistory {
    pub initial: Code,
    pub changes: Vec<Change>,
    pub version: usize,
}

impl CodeHistory {
    /// The version cursor never runs past the recorded changes.
    pub open spec fn wf(&self) -> bool {
        self.version <= self.changes.len()
    }

    pub fn new(code: Code) -> (r: CodeHistory)
        ensures
            r.initial.lines() == code.lines(),
            r.initial.cursor == code.cursor,
            r.initial.cursor_displayed == code.cursor_displayed,
            r.initial.selection == code.selection,
            r.changes@.len() == 0,
            r.version == 0,
            r.wf(),
    {
        CodeHistory { initial: code, changes: Vec::new(), version: 0 }
    }

    pub fn new_with_changes(code: Code, changes: Vec<Change>) -> (r: CodeHistory)
        ensures
            r.initial.lines() == code.lines(),
            r.initial.cursor == code.cursor,
            r.initial.cursor_displayed == code.cursor_displayed,
            r.initial.selection == code.selection,
            r.changes == changes,
            r.version == 0,
            r.wf(),
    {
        CodeHistory { initial: code, changes, version: 0 }
    }

    /// Appends a change and advances the version cursor to the new end, so
    /// that a redo right after an edit has no stale tail to walk into.
    pub fn add_change(&mut self, change: Change)
        ensures
            final(self).changes@ == old(self).changes@.push(change),
            final(self).version == final(self).changes@.len(),
            final(self).initial == old(self).initial,
            final(self).wf(),
    {
        self.changes.push(change);
        self.version = self.changes.len();
    }

    /// Inserts a change at `position`, leaving the version cursor alone; a
    /// no-op when `position` lies past the end.
    pub fn add_change_at_position(&mut self, position: usize, change: Change)
        ensures
            final(self).changes@ == if position <= old(self).changes@.len() {
                old(self).changes@.insert(position as int, change)
            } else {
                old(self).changes@
            },
            final(self).version == old(self).version,
            final(self).initial == old(self).initial,
    {
        if position <= self.changes.len() {
            self.changes.insert(position, change);
        }
    }

    pub fn get_changes(&self) -> (r: &Vec<Change>)
        ensures
            *r == self.changes,
    {
        &self.changes
    }

    /// The buffer at the version cursor: the initial snapshot with the
    /// first `version` changes replayed onto it, each applied as an
    /// in-place text replacement of its line.
    pub fn get_current_code(&self) -> (r: Code)
        ensures
            r.lines() == replay(
                self.initial.lines(),
                self.changes.deep_view(),
                if self.version <= self.changes@.len() {
                    self.version as int
                } else {
                    self.changes@.len() as int
                },
            ),
            r.cursor == self.initial.cursor,
            r.cursor_displayed == self.initial.cursor_displayed,
            r.selection == self.initial.selection,
    {
        let mut code = self.initial.clone();
        let n = self.changes.len();
        let bound = if self.version <= n {
            self.version
        } else {
            n
        };
        let mut i: usize = 0;
        while i < bound
            invariant
                i <= bound,
                bound <= self.changes@.len(),
                code.lines() == replay(
                    self.initial.lines(),
                    self.changes.deep_view(),
                    i as int,
                ),
                code.cursor == self.initial.cursor,
                code.cursor_displayed == self.initial.cursor_displayed,
                code.selection == self.initial.selection,
            decreases bound - i,
        {
            let number = self.changes[i].get_number();
            let to = self.changes[i].to.clone();
            code.change_line(number, to);
            proof {
                assert(self.changes.deep_view()[i as int] == self.changes@[i as int]@);
            }
            i = i + 1;
        }
        code
    }

    /// Steps the version cursor back by one, stopping at 0.
    pub fn remove_change(&mut self)
        ensures
            final(self).version as int == spec_use_previous(old(self).version as int),
            final(self).changes == old(self).changes,
            final(self).initial == old(self).initial,
    {
        if self.version > 0 {
            self.version = self.version - 1;
        }
    }

    /// Undo: steps the version cursor back by one, stopping at 0.
    pub fn use_previous(&mut self)
        ensures
            final(self).version as int == spec_use_previous(old(self).version as int),
            final(self).changes == old(self).changes,
            final(self).initial == old(self).initial,
    {
        if self.version > 0 {
            self.version = self.version - 1;
        }
    }

    /// Redo: steps the version cursor forward by one, stopping at the end
    /// of the recorded changes.
    pub fn use_next(&mut self)
        ensures
            final(self).version as int == spec_use_next(
                old(self).version as int,
                old(self).changes@.len() as int,
            ),
            final(self).changes == old(self).changes,
            final(self).initial == old(self).initial,
    {
        if self.version < self.changes.len() {
            self.version = self.version + 1;
        }
    }

    /// Jumps the version cursor to the newest change, so that what is saved
    /// reflects every edit whatever the undo position.
    pub fn use_last(&mut self)
        ensures
            final(self).version == old(self).changes@.len(),
            final(self).changes == old(self).changes,
            final(self).initial == old(self).initial,
            final(self).wf(),
    {
        self.version = self.changes.len();
    }

    /// Jumps the version cursor back to the initial snapshot.
    pub fn reset(&mut self)
        ensures
            final(self).version == 0,
            final(self).changes == old(self).changes,
            final(self).initial == old(self).initial,
            final(self).wf(),
    {
        self.version = 0;
    }
}

} // verus!
