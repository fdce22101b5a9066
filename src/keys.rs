//! From raw input events to zoom actions.

use vstd::prelude::*;

verus! {

/// One discrete zoom request produced by a key press.
#[derive(Debug, Clone, Copy, PartialEq, Eq, Structural)]
pub enum VolumeAction {
    Up,
    Down,
}

/// The value a key event carries when the key goes down.
pub const KEY_PRESS: i32 = 1;

/// An input event as the kernel reports it: type, code and value.
#[derive(Debug, Clone, Copy, PartialEq, Eq, Structural)]
pub struct RawEvent {
    pub kind: u16,
    pub code: u16,
    pub value: i32,
}

/// Which key codes request a zoom step, and the event type that carries keys.
#[derive(Debug, Clone, Copy, PartialEq, Eq, Structural)]
pub struct KeyMap {
    pub key_type: u16,
    pub up_code: u16,
    pub down_code: u16,
}

/// Relies on evdev's `EventType::KEY`, the kernel's `EV_KEY` type, 1.
#[verifier::external_body]
fn key_event_type() -> (r: u16)
    ensures
        r == 1,
{
    evdev::EventType::KEY.0
}

/// Relies on evdev's `KeyCode::KEY_K` and `KeyCode::code`: the kernel's code 37.
#[verifier::external_body]
fn key_k_code() -> (r: u16)
    ensures
        r == 37,
{
    evdev::KeyCode::KEY_K.code()
}

/// Relies on evdev's `KeyCode::KEY_J` and `KeyCode::code`: the kernel's code 36.
#[verifier::external_body]
fn key_j_code() -> (r: u16)
    ensures
        r == 36,
{
    evdev::KeyCode::KEY_J.code()
}

/// The action an event stands for under `map`: a press of the "up" key is
/// `Up`, a press of the "down" key is `Down`; releases, repeats and any other
/// event stand for nothing.
pub open spec fn action_of(map: KeyMap, ev: RawEvent) -> Option<VolumeAction> {
    if ev.kind != map.key_type || ev.value != KEY_PRESS {
        None
    } else if ev.code == map.up_code {
        Some(VolumeAction::Up)
    } else if ev.code == map.down_code {
        Some(VolumeAction::Down)
    } else {
        None
    }
}

/// The actions that a sequence of events stands for, in arrival order.
pub open spec fn actions_of(map: KeyMap, evs: Seq<RawEvent>) -> Seq<VolumeAction>
    decreases evs.len(),
{
    if evs.len() == 0 {
        Seq::empty()
    } else {
        let rest = actions_of(map, evs.drop_last());
        match action_of(map, evs.last()) {
            Some(a) => rest.push(a),
            None => rest,
        }
    }
}

impl KeyMap {
    /// The mapping of the keyboard's `K` key to `Up` and `J` key to `Down`.
    pub fn new() -> (r: KeyMap)
        ensures
            r.key_type == 1,
            r.up_code == 37,
            r.down_code == 36,
    {
        KeyMap { key_type: key_event_type(), up_code: key_k_code(), down_code: key_j_code() }
    }

    /// A mapping of two chosen key codes on key events.
    pub fn with_codes(up_code: u16, down_code: u16) -> (r: KeyMap)
        ensures
            r.key_type == 1,
            r.up_code == up_code,
            r.down_code == down_code,
    {
        KeyMap { key_type: key_event_type(), up_code, down_code }
    }

    /// The action that `ev` stands for, if any.
    pub fn action(&self, ev: &RawEvent) -> (r: Option<VolumeAction>)
        ensures
            r == action_of(*self, *ev),
    {
        if ev.kind != self.key_type || ev.value != KEY_PRESS {
            None
        } else if ev.code == self.up_code {
            Some(VolumeAction::Up)
        } else if ev.code == self.down_code {
            Some(VolumeAction::Down)
        } else {
            None
        }
    }

    /// The actions that a batch of events stands for, in arrival order.
    pub fn actions(&self, evs: &Vec<RawEvent>) -> (r: Vec<VolumeAction>)
        ensures
            r@ == actions_of(*self, evs@),
    {
        let mut out: Vec<VolumeAction> = Vec::new();
        let mut i: usize = 0;
        while i < evs.len()
            invariant
                i <= evs@.len(),
                out@ == actions_of(*self, evs@.take(i as int)),
            decreases evs@.len() - i,
        {
            let ghost prefix = evs@.take(i as int + 1);
            assert(prefix.drop_last() == evs@.take(i as int));
            assert(prefix.last() == evs@[i as int]);
            match self.action(&evs[i]) {
                Some(a) => out.push(a),
                None => {},
            }
            i = i + 1;
        }
        assert(evs@.take(evs@.len() as int) == evs@);
        out
    }
}

/// A press of the "up" key stands for exactly one `Up`; a release or a
/// repeat of that key stands for no action at all.
pub proof fn lemma_up_key_press_only(map: KeyMap, value: i32)
    requires
        value == 0 || value == 1 || value == 2,
    ensures
        value == KEY_PRESS ==> actions_of(
            map,
            seq![(RawEvent { kind: map.key_type, code: map.up_code, value })],
        ) == seq![VolumeAction::Up],
        value != KEY_PRESS ==> actions_of(
            map,
            seq![(RawEvent { kind: map.key_type, code: map.up_code, value })],
        ).len() == 0,
{
    let evs = seq![(RawEvent { kind: map.key_type, code: map.up_code, value })];
    assert(evs.drop_last().len() == 0);
    assert(actions_of(map, evs.drop_last()) == Seq::<VolumeAction>::empty());
    assert(evs.last() == evs[0]);
}

} // verus!
