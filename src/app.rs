use vstd::prelude::*;

use crate::tui::event::Key;

verus! {

#[derive(Clone, Copy, Debug, PartialEq, Eq, Structural)]
pub enum Mode {
    Running,
    Quit,
}

/// A minimal full-screen view that runs until escape is pressed.
pub struct App {
    pub mode: Mode,
}

impl App {
    pub fn new() -> (r: App)
        ensures
            r.mode == Mode::Running,
    {
        App { mode: Mode::Running }
    }

    pub fn is_running(&self) -> (r: bool)
        ensures
            r == (self.mode != Mode::Quit),
    {
        self.mode != Mode::Quit
    }

    /// Escape ends the view; other keys do nothing.
    pub fn handle_key_press(&mut self, key: Key)
        ensures
            final(self).mode == if key == Key::Esc {
                Mode::Quit
            } else {
                old(self).mode
            },
    {
        match key {
            Key::Esc => self.mode = Mode::Quit,
            _ => {},
        }
    }
}

} // verus!
