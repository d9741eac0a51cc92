use vstd::prelude::*;

use crate::tui::event::{Event, Key};
use crate::users::UserInfo;

verus! {

/// The dashboard's state: the ranked authors, which one is selected, which
/// pane has the focus, and whether the dashboard should close.
pub struct App {
    pub users: Vec<UserInfo>,
    pub selected_user_index: Option<usize>,
    pub should_quit: bool,
    /// `true` when the author list has the focus, `false` for the statistics pane.
    pub focus_users: bool,
}

/// The selection after moving down a list of `len` entries: the next entry,
/// the first after the last, unchanged when the list is empty.
pub open spec fn next_index(sel: Option<usize>, len: nat) -> Option<usize> {
    if len == 0 {
        sel
    } else {
        match sel {
            Some(i) => if i >= len - 1 {
                Some(0usize)
            } else {
                Some((i + 1) as usize)
            },
            None => Some(0usize),
        }
    }
}

/// The selection after moving up: the previous entry, the last before the
/// first, unchanged when the list is empty.
pub open spec fn previous_index(sel: Option<usize>, len: nat) -> Option<usize> {
    if len == 0 {
        sel
    } else {
        match sel {
            Some(i) => if i == 0 {
                Some((len - 1) as usize)
            } else {
                Some((i - 1) as usize)
            },
            None => Some(0usize),
        }
    }
}

/// The selection after moving down `k` times.
pub open spec fn next_times(sel: Option<usize>, len: nat, k: nat) -> Option<usize>
    decreases k,
{
    if k == 0 {
        sel
    } else {
        next_index(next_times(sel, len, (k - 1) as nat), len)
    }
}

impl App {
    /// A selection exists exactly when there are authors, and lies among them.
    pub open spec fn wf(&self) -> bool {
        &&& (self.selected_user_index is None <==> self.users@.len() == 0)
        &&& (self.selected_user_index matches Some(i) ==> i < self.users@.len())
    }

    pub fn new(users: Vec<UserInfo>) -> (r: App)
        ensures
            r.users@ == users@,
            r.selected_user_index == if users@.len() == 0 {
                None
            } else {
                Some(0usize)
            },
            !r.should_quit,
            r.focus_users,
            r.wf(),
    {
        let selected = if users.len() > 0 {
            Some(0)
        } else {
            None
        };
        App { users, selected_user_index: selected, should_quit: false, focus_users: true }
    }

    /// Selects the next author, wrapping from the last to the first.
    pub fn next(&mut self)
        ensures
            final(self).selected_user_index == next_index(
                old(self).selected_user_index,
                old(self).users@.len(),
            ),
            final(self).users@ == old(self).users@,
            final(self).should_quit == old(self).should_quit,
            final(self).focus_users == old(self).focus_users,
            old(self).wf() ==> final(self).wf(),
    {
        if self.users.len() > 0 {
            let i = match self.selected_user_index {
                Some(i) => if i >= self.users.len() - 1 {
                    0
                } else {
                    i + 1
                },
                None => 0,
            };
            self.selected_user_index = Some(i);
        }
    }

    /// Selects the previous author, wrapping from the first to the last.
    pub fn previous(&mut self)
        ensures
            final(self).selected_user_index == previous_index(
                old(self).selected_user_index,
                old(self).users@.len(),
            ),
            final(self).users@ == old(self).users@,
            final(self).should_quit == old(self).should_quit,
            final(self).focus_users == old(self).focus_users,
            old(self).wf() ==> final(self).wf(),
    {
        if self.users.len() > 0 {
            let i = match self.selected_user_index {
                Some(i) => if i == 0 {
                    self.users.len() - 1
                } else {
                    i - 1
                },
                None => 0,
            };
            self.selected_user_index = Some(i);
        }
    }

    /// Moves the focus between the author list and the statistics pane.
    pub fn toggle_focus(&mut self)
        ensures
            final(self).focus_users == !old(self).focus_users,
            final(self).users@ == old(self).users@,
            final(self).selected_user_index == old(self).selected_user_index,
            final(self).should_quit == old(self).should_quit,
    {
        self.focus_users = !self.focus_users;
    }

    pub fn selected_user(&self) -> (r: Option<&UserInfo>)
        requires
            self.wf(),
        ensures
            match self.selected_user_index {
                Some(i) => r == Some(&self.users@[i as int]),
                None => r is None,
            },
    {
        match self.selected_user_index {
            Some(i) => Some(&self.users[i]),
            None => None,
        }
    }

    /// Called on every tick; the state has nothing that changes with time.
    pub fn on_tick(&mut self)
        ensures
            final(self).users@ == old(self).users@,
            final(self).selected_user_index == old(self).selected_user_index,
            final(self).should_quit == old(self).should_quit,
            final(self).focus_users == old(self).focus_users,
    {
    }

    pub fn quit(&mut self)
        ensures
            final(self).should_quit,
            final(self).users@ == old(self).users@,
            final(self).selected_user_index == old(self).selected_user_index,
            final(self).focus_users == old(self).focus_users,
    {
        self.should_quit = true;
    }

    /// Applies a key press: down and up move the selection, tab moves the
    /// focus, escape closes the dashboard; other keys do nothing.
    pub fn handle_key(&mut self, key: Key)
        ensures
            final(self).users@ == old(self).users@,
            final(self).selected_user_index == match key {
                Key::Down => next_index(old(self).selected_user_index, old(self).users@.len()),
                Key::Up => previous_index(old(self).selected_user_index, old(self).users@.len()),
                _ => old(self).selected_user_index,
            },
            final(self).focus_users == (if key == Key::Tab {
                !old(self).focus_users
            } else {
                old(self).focus_users
            }),
            final(self).should_quit == (old(self).should_quit || key == Key::Esc),
            old(self).wf() ==> final(self).wf(),
    {
        match key {
            Key::Down => self.next(),
            Key::Up => self.previous(),
            Key::Tab => self.toggle_focus(),
            Key::Esc => self.quit(),
            _ => {},
        }
    }

    /// Applies one event of the input pump.
    pub fn apply(&mut self, event: Event)
        ensures
            match event {
                Event::Input(key) => final(self).selected_user_index == match key {
                    Key::Down => next_index(old(self).selected_user_index, old(self).users@.len()),
                    Key::Up => previous_index(
                        old(self).selected_user_index,
                        old(self).users@.len(),
                    ),
                    _ => old(self).selected_user_index,
                } && final(self).focus_users == (if key == Key::Tab {
                    !old(self).focus_users
                } else {
                    old(self).focus_users
                }) && final(self).should_quit == (old(self).should_quit || key == Key::Esc),
                Event::Tick => final(self).selected_user_index == old(self).selected_user_index
                    && final(self).focus_users == old(self).focus_users && final(self).should_quit
                    == old(self).should_quit,
            },
            final(self).users@ == old(self).users@,
            old(self).wf() ==> final(self).wf(),
    {
        match event {
            Event::Input(key) => self.handle_key(key),
            Event::Tick => self.on_tick(),
        }
    }
}

proof fn lemma_next_times_add(sel: Option<usize>, len: nat, a: nat, b: nat)
    ensures
        next_times(sel, len, a + b) == next_times(next_times(sel, len, a), len, b),
    decreases b,
{
    if b > 0 {
        lemma_next_times_add(sel, len, a, (b - 1) as nat);
        assert((a + b - 1) as nat == a + (b - 1) as nat);
    }
}

proof fn lemma_next_times_steps(i: nat, len: nat, k: nat)
    requires
        i + k < len,
        len <= usize::MAX + 1,
    ensures
        next_times(Some(i as usize), len, k) == Some((i + k) as usize),
    decreases k,
{
    if k > 0 {
        lemma_next_times_steps(i, len, (k - 1) as nat);
    }
}

/// Moving down as many times as there are authors comes back to the
/// selection one started from.
pub proof fn lemma_next_cycles(i: usize, len: nat)
    requires
        i < len,
        len <= usize::MAX + 1,
    ensures
        next_times(Some(i), len, len) == Some(i),
{
    let to_last = (len - 1 - i) as nat;
    lemma_next_times_steps(i as nat, len, to_last);
    lemma_next_times_add(Some(i), len, to_last, 1);
    assert(next_times(Some(i), len, to_last + 1) == Some(0usize));
    if i > 0 {
        lemma_next_times_steps(0, len, i as nat);
    }
    lemma_next_times_add(Some(i), len, to_last + 1, i as nat);
    assert(to_last + 1 + i == len);
}

} // verus!
