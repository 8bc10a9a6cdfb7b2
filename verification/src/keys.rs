//! What each key does to the application.
use vstd::prelude::*;
use crate::app::{other_focus, App, AppModel, Focus, InputMode};
use crate::folder::total_tasks;
use crate::text::{drop_last_char, pop_char, push_char};

verus! {

/// A key, as far as the application tells keys apart.
#[derive(Clone, Copy, PartialEq, Eq, Structural)]
pub enum Key {
    Char(char),
    Backspace,
    Enter,
    Left,
    Right,
    Up,
    Down,
    Tab,
    Delete,
    Esc,
    Other,
}

/// A key press: the key and whether Control was held.
#[derive(Clone, Copy, PartialEq, Eq, Structural)]
pub struct KeyPress {
    pub code: Key,
    pub ctrl: bool,
}

/// What is left to do after a key: nothing, quit, or write or read the
/// export file.
#[derive(Clone, Copy, PartialEq, Eq, Structural)]
pub enum Command {
    Continue,
    Quit,
    Export,
    Import,
}

/// The timer keys that reset the timer, which reads the clock anew: `r`
/// (reset) and `s` (switch period).
pub open spec fn timer_key_restarts_clock(code: Key) -> bool {
    code == Key::Char('r') || code == Key::Char('s')
}

impl AppModel {
    /// A key press that reaches the timer pane as `r` or `s`, which restart
    /// the clock of the timer; every other key leaves it as it is.
    pub open spec fn key_restarts_clock(self, key: KeyPress) -> bool {
        &&& !(key.ctrl && key.code == Key::Char('c'))
        &&& !(key.code == Key::Char('q') && self.input.len() == 0)
        &&& key.code != Key::Tab
        &&& self.focus == Focus::Timer
        &&& timer_key_restarts_clock(key.code)
    }

    /// A key while the timer has the focus: start or pause, reset, or
    /// switch between work and break.
    pub open spec fn on_timer_key(self, code: Key) -> AppModel {
        match code {
            Key::Char(' ') | Key::Enter => AppModel { running: !self.running, ..self },
            Key::Char('r') => self.reset_timer(),
            Key::Char('s') => self.switch_mode(),
            _ => self,
        }
    }

    /// A key while a folder name is typed.
    pub open spec fn on_folder_input_key(self, code: Key) -> AppModel {
        match code {
            Key::Char(c) => AppModel { input: self.input.push(c), ..self },
            Key::Backspace => AppModel { input: drop_last_char(self.input), ..self },
            Key::Enter => self.add_folder(),
            Key::Esc => AppModel { input: Seq::empty(), input_mode: InputMode::Todo, ..self },
            _ => self,
        }
    }

    /// A key while the task list has the focus. Letters that are commands
    /// are commands only while nothing is typed.
    pub open spec fn on_todo_key(self, code: Key) -> (AppModel, Command) {
        let idle = self.input.len() == 0;
        if self.input_mode == InputMode::Folder {
            (self.on_folder_input_key(code), Command::Continue)
        } else if idle && code == Key::Char('f') {
            (AppModel { input: Seq::empty(), input_mode: InputMode::Folder, ..self }, Command::Continue)
        } else if idle && code == Key::Char('e') {
            (self, Command::Export)
        } else if idle && code == Key::Char('i') {
            (self, Command::Import)
        } else if idle && code == Key::Char(' ') {
            (self.with_current(self.current().toggle_done()), Command::Continue)
        } else if idle && code == Key::Char('c') {
            (self.with_current(self.current().toggle_collapse()), Command::Continue)
        } else {
            (
                match code {
                    Key::Char(c) => AppModel { input: self.input.push(c), ..self },
                    Key::Backspace => AppModel { input: drop_last_char(self.input), ..self },
                    Key::Enter => self.add_todo(),
                    Key::Up => self.with_current(self.current().select_previous()),
                    Key::Down => self.with_current(self.current().select_next()),
                    Key::Left => self.select_previous_folder(),
                    Key::Right => self.select_next_folder(),
                    Key::Delete => self.with_current(self.current().delete_selected()),
                    Key::Esc => AppModel { input: Seq::empty(), ..self },
                    _ => self,
                },
                Command::Continue,
            )
        }
    }

    /// A key press: Control-C, or `q` while nothing is typed, quits; Tab
    /// moves the focus; any other key goes to the pane that has the focus.
    pub open spec fn on_key(self, key: KeyPress) -> (AppModel, Command) {
        if key.ctrl && key.code == Key::Char('c') {
            (self, Command::Quit)
        } else if key.code == Key::Char('q') && self.input.len() == 0 {
            (self, Command::Quit)
        } else if key.code == Key::Tab {
            (AppModel { focus: other_focus(self.focus), ..self }, Command::Continue)
        } else {
            match self.focus {
                Focus::Todos => self.on_todo_key(key.code),
                Focus::Timer => (self.on_timer_key(key.code), Command::Continue),
            }
        }
    }

    /// What `handle_key` needs of the state: a selected folder whose rows
    /// can be counted, and whose selected row can move down.
    pub open spec fn ready_for_key(self) -> bool {
        &&& self.has_current()
        &&& self.current().selected_row < usize::MAX
    }
}

impl App {
    /// Handles a key press (see `AppModel::on_key`) and says what is left
    /// to do.
    pub fn handle_key(&mut self, key: KeyPress) -> (cmd: Command)
        requires
            old(self)@.ready_for_key(),
        ensures
            (final(self)@, cmd) == old(self)@.on_key(key),
            !old(self)@.key_restarts_clock(key) ==> final(self).last_tick == old(self).last_tick,
            old(self)@.wf() && total_tasks(old(self)@.folders) + 1 < usize::MAX ==> final(self)@.wf(),
            old(self)@.consistent() ==> final(self)@.consistent(),
    {
        if key.ctrl && key.code == Key::Char('c') {
            return Command::Quit;
        }
        match key.code {
            Key::Char('q') if self.input.as_str().is_empty() => Command::Quit,
            Key::Tab => {
                self.focus = match self.focus {
                    Focus::Todos => Focus::Timer,
                    Focus::Timer => Focus::Todos,
                };
                Command::Continue
            },
            _ => match self.focus {
                Focus::Todos => self.handle_todo_key(key),
                Focus::Timer => self.handle_timer_key(key),
            },
        }
    }

    /// Handles a key while the task list has the focus (see
    /// `AppModel::on_todo_key`).
    pub fn handle_todo_key(&mut self, key: KeyPress) -> (cmd: Command)
        requires
            old(self)@.ready_for_key(),
        ensures
            (final(self)@, cmd) == old(self)@.on_todo_key(key.code),
            final(self).last_tick == old(self).last_tick,
            old(self)@.wf() && total_tasks(old(self)@.folders) + 1 < usize::MAX ==> final(self)@.wf(),
            old(self)@.consistent() ==> final(self)@.consistent(),
    {
        if self.input_mode == InputMode::Folder {
            self.handle_folder_input_key(key);
            return Command::Continue;
        }
        let idle = self.input.as_str().is_empty();
        proof {
            assert(self.selected_folder < self.folders.len());
        }
        match key.code {
            Key::Char('f') if idle => self.start_folder_input(),
            Key::Char('e') if idle => {
                return Command::Export;
            },
            Key::Char('i') if idle => {
                return Command::Import;
            },
            Key::Char(' ') if idle => self.toggle_selected_task_done(),
            Key::Char('c') if idle => self.toggle_completed_collapse(),
            Key::Char(c) => push_char(&mut self.input, c),
            Key::Backspace => pop_char(&mut self.input),
            Key::Enter => self.add_todo_from_input(),
            Key::Up => self.select_previous_todo(),
            Key::Down => self.select_next_todo(),
            Key::Left => self.select_previous_folder(),
            Key::Right => self.select_next_folder(),
            Key::Delete => self.delete_selected_todo(),
            Key::Esc => self.input = String::new(),
            _ => {},
        }
        Command::Continue
    }

    /// Handles a key while a folder name is typed (see
    /// `AppModel::on_folder_input_key`).
    pub fn handle_folder_input_key(&mut self, key: KeyPress)
        ensures
            final(self)@ == old(self)@.on_folder_input_key(key.code),
            final(self).last_tick == old(self).last_tick,
            old(self)@.wf() ==> final(self)@.wf(),
            old(self)@.consistent() ==> final(self)@.consistent(),
    {
        match key.code {
            Key::Char(c) => push_char(&mut self.input, c),
            Key::Backspace => pop_char(&mut self.input),
            Key::Enter => self.add_folder_from_input(),
            Key::Esc => {
                self.input = String::new();
                self.input_mode = InputMode::Todo;
            },
            _ => {},
        }
    }

    /// Handles a key while the timer has the focus (see
    /// `AppModel::on_timer_key`).
    pub fn handle_timer_key(&mut self, key: KeyPress) -> (cmd: Command)
        ensures
            final(self)@ == old(self)@.on_timer_key(key.code),
            cmd == Command::Continue,
            !timer_key_restarts_clock(key.code) ==> final(self).last_tick == old(self).last_tick,
            old(self)@.wf() ==> final(self)@.wf(),
            old(self)@.consistent() ==> final(self)@.consistent(),
    {
        match key.code {
            Key::Char(' ') | Key::Enter => self.running = !self.running,
            Key::Char('r') => self.reset_timer(),
            Key::Char('s') => self.switch_mode(),
            _ => {},
        }
        Command::Continue
    }
}

} // verus!
