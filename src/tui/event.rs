use vstd::prelude::*;

verus! {

/// A key press, as far as the dashboard tells keys apart.
#[derive(Clone, Copy, Debug, PartialEq, Eq, Structural)]
pub enum Key {
    Up,
    Down,
    Tab,
    Esc,
    Char(char),
    Other,
}

/// What the input pump hands to the dashboard loop.
#[derive(Clone, Copy, Debug, PartialEq, Eq, Structural)]
pub enum Event {
    Input(Key),
    Tick,
}

/// A repeat of the same key within this many milliseconds of its previous
/// delivery is dropped, so that a terminal's key repeat does not skip past
/// several entries for one intended press.
pub const DEBOUNCE_MS: u64 = 100;

/// The decisions of the input pump: how long to wait for input, which key
/// presses to deliver, and when a tick is due. Times are milliseconds on a
/// monotonic clock.
#[derive(Clone, Copy, Debug)]
pub struct InputPump {
    pub tick_rate_ms: u64,
    pub last_tick_ms: u64,
    pub last_key: Option<Key>,
    pub last_key_ms: u64,
}

/// The time from `since` to `now`, or zero when `since` is later.
pub open spec fn elapsed(now: u64, since: u64) -> u64 {
    if now >= since {
        (now - since) as u64
    } else {
        0
    }
}

impl InputPump {
    pub fn new(tick_rate_ms: u64, now_ms: u64) -> (r: InputPump)
        ensures
            r.tick_rate_ms == tick_rate_ms,
            r.last_tick_ms == now_ms,
            r.last_key is None,
            r.last_key_ms == now_ms,
    {
        InputPump { tick_rate_ms, last_tick_ms: now_ms, last_key: None, last_key_ms: now_ms }
    }

    /// How long to wait for input before the next tick is due.
    pub fn poll_timeout(&self, now_ms: u64) -> (r: u64)
        ensures
            r == if elapsed(now_ms, self.last_tick_ms) <= self.tick_rate_ms {
                (self.tick_rate_ms - elapsed(now_ms, self.last_tick_ms)) as u64
            } else {
                0
            },
    {
        let since = if now_ms >= self.last_tick_ms {
            now_ms - self.last_tick_ms
        } else {
            0
        };
        if since <= self.tick_rate_ms {
            self.tick_rate_ms - since
        } else {
            0
        }
    }

    pub open spec fn spec_delivers(self, key: Key, now_ms: u64) -> bool {
        self.last_key != Some(key) || elapsed(now_ms, self.last_key_ms) > DEBOUNCE_MS
    }

    /// Whether a key press read at `now_ms` is delivered: a different key
    /// than the last one delivered, or the same one after the debounce
    /// window. A delivered key becomes the last one.
    pub fn accept_key(&mut self, key: Key, now_ms: u64) -> (r: bool)
        ensures
            r == old(self).spec_delivers(key, now_ms),
            r ==> *final(self) == (InputPump {
                last_key: Some(key),
                last_key_ms: now_ms,
                ..*old(self)
            }),
            !r ==> *final(self) == *old(self),
    {
        let since = if now_ms >= self.last_key_ms {
            now_ms - self.last_key_ms
        } else {
            0
        };
        let same = match self.last_key {
            Some(k) => k == key,
            None => false,
        };
        if !same || since > DEBOUNCE_MS {
            self.last_key = Some(key);
            self.last_key_ms = now_ms;
            true
        } else {
            false
        }
    }

    /// Whether a tick is due at `now_ms`; when it is, the tick period starts
    /// again from `now_ms`.
    pub fn tick_due(&mut self, now_ms: u64) -> (r: bool)
        ensures
            r == (elapsed(now_ms, old(self).last_tick_ms) >= old(self).tick_rate_ms),
            r ==> *final(self) == (InputPump { last_tick_ms: now_ms, ..*old(self) }),
            !r ==> *final(self) == *old(self),
    {
        let since = if now_ms >= self.last_tick_ms {
            now_ms - self.last_tick_ms
        } else {
            0
        };
        if since >= self.tick_rate_ms {
            self.last_tick_ms = now_ms;
            true
        } else {
            false
        }
    }
}

} // verus!
