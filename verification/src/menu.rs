//! The menu: which entry is selected, which scene is shown, and how a key changes both.

use std::sync::{Arc, RwLock};
use vstd::prelude::*;

verus! {

#[verifier::external_type_specification]
#[verifier::external_body]
#[verifier::reject_recursive_types(T)]
pub struct ExRwLock<T: ?Sized>(RwLock<T>);

/// The index of the last entry of the menu, the one that ends the program.
pub const LAST_OPTION: usize = 4;

/// The mode in which the menu itself is shown.
pub const MENU_MODE: usize = 0;

/// A key, as far as the menu tells keys apart.
#[derive(Clone, Copy, Debug, PartialEq, Eq, Structural)]
pub enum Key {
    Enter,
    Up,
    Down,
    Other,
}

/// What the menu remembers between two keys.
///
/// Mode `MENU_MODE` shows the menu, mode `n + 1` shows what entry `n`
/// stands for, and the mode past the last entry means that the program ends.
#[derive(Clone, Copy, Debug, PartialEq, Eq, Structural)]
pub struct Menu {
    pub mode: usize,
    pub selected: usize,
}

impl Menu {
    /// The selection points at an entry and the mode is one that an entry leads to.
    pub open spec fn wf(self) -> bool {
        self.selected <= LAST_OPTION && self.mode <= LAST_OPTION + 1
    }

    /// The state after `key`. In the menu, `Up` and `Down` move the
    /// selection and stop at the ends, and `Enter` opens the selected entry;
    /// anywhere else `Enter` leads back to the menu. Other keys do nothing.
    pub open spec fn spec_on_key(self, key: Key) -> Menu {
        if self.mode == MENU_MODE {
            match key {
                Key::Enter => Menu { mode: (self.selected + 1) as usize, selected: self.selected },
                Key::Up => Menu {
                    mode: self.mode,
                    selected: if self.selected > 0 {
                        (self.selected - 1) as usize
                    } else {
                        self.selected
                    },
                },
                Key::Down => Menu {
                    mode: self.mode,
                    selected: if self.selected < LAST_OPTION {
                        (self.selected + 1) as usize
                    } else {
                        self.selected
                    },
                },
                Key::Other => self,
            }
        } else {
            match key {
                Key::Enter => Menu { mode: MENU_MODE, selected: self.selected },
                _ => self,
            }
        }
    }

    /// Whether `key` is the one that ends the program: `Enter` on the last
    /// entry of the menu.
    pub open spec fn spec_quits(self, key: Key) -> bool {
        self.mode == MENU_MODE && key == Key::Enter && self.selected == LAST_OPTION
    }

    /// Whether frames are still to be shown in this state.
    pub open spec fn spec_running(self) -> bool {
        self.mode <= LAST_OPTION
    }

    /// The menu as it is when the program starts.
    pub fn new() -> (m: Menu)
        ensures
            m == (Menu { mode: MENU_MODE, selected: 0 }),
            m.wf(),
    {
        Menu { mode: MENU_MODE, selected: 0 }
    }

    pub fn on_key(self, key: Key) -> (next: Menu)
        requires
            self.wf(),
        ensures
            next == self.spec_on_key(key),
            next.wf(),
    {
        if self.mode == MENU_MODE {
            match key {
                Key::Enter => Menu { mode: self.selected + 1, selected: self.selected },
                Key::Up => Menu {
                    mode: self.mode,
                    selected: if self.selected > 0 {
                        self.selected - 1
                    } else {
                        self.selected
                    },
                },
                Key::Down => Menu {
                    mode: self.mode,
                    selected: if self.selected < LAST_OPTION {
                        self.selected + 1
                    } else {
                        self.selected
                    },
                },
                Key::Other => self,
            }
        } else {
            match key {
                Key::Enter => Menu { mode: MENU_MODE, selected: self.selected },
                _ => self,
            }
        }
    }

    pub fn quits(self, key: Key) -> (q: bool)
        ensures
            q == self.spec_quits(key),
    {
        self.mode == MENU_MODE && key == Key::Enter && self.selected == LAST_OPTION
    }

    pub fn running(self) -> (r: bool)
        ensures
            r == self.spec_running(),
    {
        self.mode <= LAST_OPTION
    }
}

/// `RwLock::read`: the number that the lock holds at the moment of the call.
/// Other threads may write at any time, so nothing is promised of it; a
/// poisoned lock still hands out what it holds.
#[verifier::external_body]
pub fn read_lock(lock: &Arc<RwLock<usize>>) -> usize {
    match lock.read() {
        Ok(guard) => *guard,
        Err(poisoned) => **poisoned.get_ref(),
    }
}

/// `RwLock::write`: stores `new_val` in the lock, poisoned or not.
#[verifier::external_body]
pub fn write_lock(lock: &Arc<RwLock<usize>>, new_val: usize) {
    match lock.write() {
        Ok(mut guard) => *guard = new_val,
        Err(poisoned) => *poisoned.into_inner() = new_val,
    }
}

/// Applies one key to the state that two locks share between the thread
/// that reads keys and the one that shows frames, and says whether the key
/// ends the program. A state that no sequence of keys leads to is left as it is.
pub fn handle_key(mode: &Arc<RwLock<usize>>, selected: &Arc<RwLock<usize>>, key: Key) -> (quit:
    bool)
    ensures
        quit ==> key == Key::Enter,
{
    let state = Menu { mode: read_lock(mode), selected: read_lock(selected) };
    let (next, quit) = key_effect(state, key);
    if next.mode != state.mode {
        write_lock(mode, next.mode);
    }
    if next.selected != state.selected {
        write_lock(selected, next.selected);
    }
    quit
}

/// What `key` does to `state`, whatever `state` is: the state that follows
/// and whether the key ends the program. A state that no sequence of keys
/// leads to is followed by itself and ends nothing.
pub open spec fn spec_key_effect(state: Menu, key: Key) -> (Menu, bool) {
    if state.wf() {
        (state.spec_on_key(key), state.spec_quits(key))
    } else {
        (state, false)
    }
}

/// Decides what [`handle_key`] does, given the state that it has read.
pub fn key_effect(state: Menu, key: Key) -> (r: (Menu, bool))
    ensures
        r == spec_key_effect(state, key),
{
    if state.selected > LAST_OPTION || state.mode > LAST_OPTION + 1 {
        (state, false)
    } else {
        (state.on_key(key), state.quits(key))
    }
}

} // verus!
