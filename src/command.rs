use vstd::prelude::*;

use crate::app::{lemma_row_moves_wrap, lemma_transitions_keep_wf, App, AppView, EditMode};

verus! {

/// What the user asked for, once a key press has been read.
#[derive(Clone, Copy, Debug, PartialEq, Eq, Structural)]
pub enum Command {
    Quit,
    NextRow,
    PreviousRow,
    NextColumn,
    PreviousColumn,
    DuplicateRow,
    DeleteRow,
    EnterInsert,
    ExitInsert,
    Char(char),
    Backspace,
    CycleUnit,
}

/// A key press, as far as the table cares.
#[derive(Clone, Copy, Debug, PartialEq, Eq, Structural)]
pub enum Key {
    Char(char),
    Backspace,
    Enter,
    Esc,
    Other,
}

/// The command a key stands for in `mode`. While navigating, letters move
/// the cursor and change the table; while inserting, characters are typed
/// into the selected value, and Enter or Esc go back to navigating. `p`
/// cycles the pressure unit in both modes.
pub open spec fn command_of(mode: EditMode, key: Key) -> Option<Command> {
    match mode {
        EditMode::Navigate => match key {
            Key::Char('q') => Some(Command::Quit),
            Key::Char('j') => Some(Command::NextRow),
            Key::Char('k') => Some(Command::PreviousRow),
            Key::Char('l') => Some(Command::NextColumn),
            Key::Char('h') => Some(Command::PreviousColumn),
            Key::Char('y') => Some(Command::DuplicateRow),
            Key::Char('d') => Some(Command::DeleteRow),
            Key::Char('i') => Some(Command::EnterInsert),
            Key::Char('p') => Some(Command::CycleUnit),
            _ => None,
        },
        EditMode::Insert => match key {
            Key::Char('p') => Some(Command::CycleUnit),
            Key::Char(c) => Some(Command::Char(c)),
            Key::Backspace => Some(Command::Backspace),
            Key::Enter => Some(Command::ExitInsert),
            Key::Esc => Some(Command::ExitInsert),
            Key::Other => None,
        },
    }
}

pub fn command_for_key(mode: EditMode, key: Key) -> (r: Option<Command>)
    ensures
        r == command_of(mode, key),
{
    match mode {
        EditMode::Navigate => match key {
            Key::Char('q') => Some(Command::Quit),
            Key::Char('j') => Some(Command::NextRow),
            Key::Char('k') => Some(Command::PreviousRow),
            Key::Char('l') => Some(Command::NextColumn),
            Key::Char('h') => Some(Command::PreviousColumn),
            Key::Char('y') => Some(Command::DuplicateRow),
            Key::Char('d') => Some(Command::DeleteRow),
            Key::Char('i') => Some(Command::EnterInsert),
            Key::Char('p') => Some(Command::CycleUnit),
            _ => None,
        },
        EditMode::Insert => match key {
            Key::Char('p') => Some(Command::CycleUnit),
            Key::Char(c) => Some(Command::Char(c)),
            Key::Backspace => Some(Command::Backspace),
            Key::Enter => Some(Command::ExitInsert),
            Key::Esc => Some(Command::ExitInsert),
            Key::Other => None,
        },
    }
}

impl AppView {
    /// The state after `cmd`. Moving, duplicating and deleting act only while
    /// navigating; typing and deleting digits only while inserting; cycling
    /// the unit in both modes. Anything else, and quitting, changes nothing.
    pub open spec fn apply(self, cmd: Command) -> AppView {
        match self.edit_mode {
            EditMode::Navigate => match cmd {
                Command::NextRow => self.next_row(),
                Command::PreviousRow => self.previous_row(),
                Command::NextColumn => self.next_column(),
                Command::PreviousColumn => self.previous_column(),
                Command::DuplicateRow => self.insert_row(),
                Command::DeleteRow => self.remove_row(),
                Command::EnterInsert => self.enter_insert(),
                Command::CycleUnit => self.cycle_unit(),
                _ => self,
            },
            EditMode::Insert => match cmd {
                Command::ExitInsert => self.exit_insert(),
                Command::Char(c) => self.edit_append(c),
                Command::Backspace => self.edit_delete(),
                Command::CycleUnit => self.cycle_unit(),
                _ => self,
            },
        }
    }
}

impl AppView {
    /// The state after each of `cmds`, in order.
    pub open spec fn run(self, cmds: Seq<Command>) -> AppView
        decreases cmds.len(),
    {
        if cmds.len() == 0 {
            self
        } else {
            self.apply(cmds[0]).run(cmds.drop_first())
        }
    }
}

/// Every command keeps the state well formed.
pub proof fn lemma_apply_keeps_wf(v: AppView, cmd: Command)
    requires
        v.wf(),
    ensures
        v.apply(cmd).wf(),
{
    let c = match cmd {
        Command::Char(c) => c,
        _ => ' ',
    };
    lemma_transitions_keep_wf(v, c);
}

/// Whatever commands come, in whatever order, the state stays well formed:
/// there is at least one row and the cursor is on one of them.
pub proof fn lemma_run_keeps_wf(v: AppView, cmds: Seq<Command>)
    requires
        v.wf(),
    ensures
        v.run(cmds).wf(),
        0 <= v.run(cmds).selected_row < v.run(cmds).rows.len(),
    decreases cmds.len(),
{
    if cmds.len() > 0 {
        lemma_apply_keeps_wf(v, cmds[0]);
        lemma_run_keeps_wf(v.apply(cmds[0]), cmds.drop_first());
    }
}

/// A run of row moves, in either direction and any number, keeps the cursor
/// on a row and leaves the rows as they were.
pub proof fn lemma_row_moves_stay_in_range(v: AppView, cmds: Seq<Command>)
    requires
        v.wf(),
        forall|i: int| 0 <= i < cmds.len() ==> (#[trigger] cmds[i] is NextRow || cmds[i] is PreviousRow),
    ensures
        v.run(cmds).wf(),
        0 <= v.run(cmds).selected_row < v.rows.len(),
        v.run(cmds).rows == v.rows,
    decreases cmds.len(),
{
    if cmds.len() > 0 {
        lemma_row_moves_wrap(v);
        let rest = cmds.drop_first();
        assert forall|i: int| 0 <= i < rest.len() implies (#[trigger] rest[i] is NextRow
            || rest[i] is PreviousRow) by {
            assert(rest[i] == cmds[i + 1]);
        }
        lemma_row_moves_stay_in_range(v.apply(cmds[0]), rest);
    }
}

/// Deleting rows, however often, never leaves fewer than one. While
/// navigating, after `n` deletions there are `max(1, len - n)` rows; while
/// inserting, deletions are ignored.
pub proof fn lemma_deletes_keep_a_row(v: AppView, cmds: Seq<Command>)
    requires
        v.wf(),
        forall|i: int| 0 <= i < cmds.len() ==> #[trigger] cmds[i] is DeleteRow,
    ensures
        v.run(cmds).wf(),
        v.run(cmds).rows.len() >= 1,
        v.run(cmds).edit_mode == v.edit_mode,
        v.edit_mode == EditMode::Navigate ==> v.run(cmds).rows.len() == if v.rows.len()
            > cmds.len() {
            v.rows.len() - cmds.len()
        } else {
            1
        },
        v.edit_mode == EditMode::Insert ==> v.run(cmds).rows == v.rows,
    decreases cmds.len(),
{
    if cmds.len() > 0 {
        lemma_apply_keeps_wf(v, cmds[0]);
        let rest = cmds.drop_first();
        assert forall|i: int| 0 <= i < rest.len() implies #[trigger] rest[i] is DeleteRow by {
            assert(rest[i] == cmds[i + 1]);
        }
        lemma_deletes_keep_a_row(v.apply(cmds[0]), rest);
    }
}

impl App {
    /// Carries out `cmd` in the current mode.
    pub fn apply(&mut self, cmd: Command)
        requires
            old(self)@.wf(),
        ensures
            final(self)@ == old(self)@.apply(cmd),
            final(self)@.wf(),
    {
        match self.edit_mode() {
            EditMode::Navigate => match cmd {
                Command::NextRow => self.next_row(),
                Command::PreviousRow => self.previous_row(),
                Command::NextColumn => self.next_column(),
                Command::PreviousColumn => self.previous_column(),
                Command::DuplicateRow => self.insert_row(),
                Command::DeleteRow => self.remove_row(),
                Command::EnterInsert => self.enter_insert_mode(),
                Command::CycleUnit => self.cycle_unit(),
                _ => {},
            },
            EditMode::Insert => match cmd {
                Command::ExitInsert => self.exit_insert_mode(),
                Command::Char(c) => self.edit_append(c),
                Command::Backspace => self.edit_delete(),
                Command::CycleUnit => self.cycle_unit(),
                _ => {},
            },
        }
    }

    /// Reacts to a key press; returns false when the key asks to quit.
    pub fn handle_key(&mut self, key: Key) -> (running: bool)
        requires
            old(self)@.wf(),
        ensures
            running == (command_of(old(self)@.edit_mode, key) != Some(Command::Quit)),
            final(self)@ == match command_of(old(self)@.edit_mode, key) {
                Some(cmd) => old(self)@.apply(cmd),
                None => old(self)@,
            },
            final(self)@.wf(),
    {
        match command_for_key(self.edit_mode(), key) {
            Some(Command::Quit) => false,
            Some(cmd) => {
                self.apply(cmd);
                true
            },
            None => true,
        }
    }
}

} // verus!
