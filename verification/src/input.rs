//! Key-state bookkeeping and the per-frame event drain.
//!
//! Each frame, every window event that arrived since the last poll is
//! processed in order: a close request stops the drain (and the loop) at
//! once, press/release events for the four tracked arrow keys toggle the
//! matching flag, and everything else is ignored.

use vstd::prelude::*;

verus! {

/// One of the four tracked arrow keys.
#[derive(Clone, Copy, Debug, PartialEq, Eq, Structural)]
pub enum Key {
    Left,
    Right,
    Up,
    Down,
}

/// A window event, as the simulation sees it.  Everything the window
/// system reports that is neither a close request nor a tracked key
/// transition arrives as `Other`.
#[derive(Clone, Copy, Debug, PartialEq, Eq, Structural)]
pub enum WindowEvent {
    Closed,
    KeyPressed(Key),
    KeyReleased(Key),
    Other,
}

/// Which of the four direction keys are currently held.
#[derive(Clone, Copy, Debug, PartialEq, Eq, Structural)]
pub struct Keys {
    pub left: bool,
    pub right: bool,
    pub up: bool,
    pub down: bool,
}

/// All four flags clear: no key is held.
pub open spec fn spec_no_keys() -> Keys {
    Keys { left: false, right: false, up: false, down: false }
}

/// The key state after setting one key's flag to `pressed`.
pub open spec fn spec_with_key(k: Keys, key: Key, pressed: bool) -> Keys {
    match key {
        Key::Left => Keys { left: pressed, ..k },
        Key::Right => Keys { right: pressed, ..k },
        Key::Up => Keys { up: pressed, ..k },
        Key::Down => Keys { down: pressed, ..k },
    }
}

/// The key state after one event: presses and releases toggle the matching
/// flag, every other event leaves the state unchanged.
pub open spec fn spec_apply_event(k: Keys, e: WindowEvent) -> Keys {
    match e {
        WindowEvent::KeyPressed(key) => spec_with_key(k, key, true),
        WindowEvent::KeyReleased(key) => spec_with_key(k, key, false),
        _ => k,
    }
}

/// The result of draining a queue of events, in arrival order: the key
/// state folded over the events up to (not including) the first close
/// request, and whether a close request was reached.  Events after the
/// first close request are never looked at.
pub open spec fn spec_drain(k: Keys, evs: Seq<WindowEvent>) -> (Keys, bool)
    decreases evs.len(),
{
    if evs.len() == 0 {
        (k, false)
    } else if evs[0] is Closed {
        (k, true)
    } else {
        spec_drain(spec_apply_event(k, evs[0]), evs.drop_first())
    }
}

/// Fold one event into the key state.
pub fn apply_event(k: Keys, e: WindowEvent) -> (r: Keys)
    ensures
        r == spec_apply_event(k, e),
{
    match e {
        WindowEvent::KeyPressed(Key::Left) => Keys { left: true, ..k },
        WindowEvent::KeyPressed(Key::Right) => Keys { right: true, ..k },
        WindowEvent::KeyPressed(Key::Up) => Keys { up: true, ..k },
        WindowEvent::KeyPressed(Key::Down) => Keys { down: true, ..k },
        WindowEvent::KeyReleased(Key::Left) => Keys { left: false, ..k },
        WindowEvent::KeyReleased(Key::Right) => Keys { right: false, ..k },
        WindowEvent::KeyReleased(Key::Up) => Keys { up: false, ..k },
        WindowEvent::KeyReleased(Key::Down) => Keys { down: false, ..k },
        _ => k,
    }
}

/// Drain the pending events in arrival order, stopping at the first close
/// request.  Returns the new key state and whether a close was seen.
pub fn drain_events(k: Keys, evs: &Vec<WindowEvent>) -> (r: (Keys, bool))
    ensures
        r == spec_drain(k, evs@),
{
    let mut keys = k;
    let mut i: usize = 0;
    proof {
        assert(evs@.skip(0) =~= evs@);
    }
    while i < evs.len()
        invariant
            i <= evs.len(),
            spec_drain(k, evs@) == spec_drain(keys, evs@.skip(i as int)),
        decreases evs.len() - i,
    {
        let e = evs[i];
        proof {
            assert(evs@.skip(i as int)[0] == evs@[i as int]);
            assert(evs@.skip(i as int).drop_first() =~= evs@.skip(i as int + 1));
        }
        match e {
            WindowEvent::Closed => {
                return (keys, true);
            },
            _ => {
                keys = apply_event(keys, e);
            },
        }
        i += 1;
    }
    proof {
        assert(evs@.skip(i as int).len() == 0);
    }
    (keys, false)
}

/// A close request anywhere in the queue halts the drain: the drain
/// reports that a close was seen, so the frame loop stops before any
/// later iteration runs.
pub proof fn lemma_close_halts(k: Keys, evs: Seq<WindowEvent>)
    requires
        exists|i: int| 0 <= i < evs.len() && evs[i] is Closed,
    ensures
        spec_drain(k, evs).1,
    decreases evs.len(),
{
    let i = choose|i: int| 0 <= i < evs.len() && evs[i] is Closed;
    if evs[0] is Closed {
    } else {
        assert(evs.drop_first()[i - 1] == evs[i]);
        lemma_close_halts(spec_apply_event(k, evs[0]), evs.drop_first());
    }
}

/// The converse: the drain reports a close only if some event in the
/// queue is a close request.
pub proof fn lemma_halt_needs_close(k: Keys, evs: Seq<WindowEvent>)
    requires
        spec_drain(k, evs).1,
    ensures
        exists|i: int| 0 <= i < evs.len() && evs[i] is Closed,
    decreases evs.len(),
{
    if evs.len() == 0 {
    } else if evs[0] is Closed {
        assert(0 <= 0 < evs.len() && evs[0] is Closed);
    } else {
        lemma_halt_needs_close(spec_apply_event(k, evs[0]), evs.drop_first());
        let j = choose|j: int| 0 <= j < evs.drop_first().len() && evs.drop_first()[j] is Closed;
        assert(evs[j + 1] == evs.drop_first()[j]);
        assert(0 <= j + 1 < evs.len() && evs[j + 1] is Closed);
    }
}

} // verus!
