use vstd::prelude::*;

use crate::control::{Button, InputEvent, KeyButton, KeyButtonAction, UpDown};
use crate::fsm::{Fsm, Gesture};

verus! {

/// What the settings window asked for: `name` is the binding waiting for a
/// control (empty when none is), `allow_wheel` whether a wheel tick may
/// answer it.
#[derive(Debug, Clone)]
pub struct FrontendListenState {
    pub name: String,
    pub allow_wheel: bool,
}

/// A control captured for the binding `name`.
#[derive(Debug, Clone)]
pub struct BackendKeyButtonDownInfo {
    pub name: String,
    pub key_button: KeyButton,
}

/// What one raw event led to: a captured control for the settings window,
/// and the command the automaton recognized.
#[derive(Debug, Clone)]
pub struct CallbackOutput {
    pub captured: Option<BackendKeyButtonDownInfo>,
    pub command: Option<Gesture>,
}

/// The direction last recorded for `kb`; a control never seen is up.
pub open spec fn known_direction(known: Map<KeyButton, UpDown>, kb: KeyButton) -> UpDown {
    if known.contains_key(kb) {
        known[kb]
    } else {
        UpDown::Up
    }
}

/// The action an event is passed on as: none when it names no control, or
/// when it repeats the direction last recorded for its control, wheel ticks
/// excepted.
pub open spec fn forwarded(known: Map<KeyButton, UpDown>, event: InputEvent) -> Option<
    KeyButtonAction,
> {
    match KeyButton::spec_from_event(event) {
        None => None,
        Some(kb) => {
            let d = event.spec_direction();
            if d == known_direction(known, kb) && !event.spec_is_wheel() {
                None
            } else {
                Some(KeyButtonAction(kb, d))
            }
        },
    }
}

/// The recorded directions after an event.
pub open spec fn after_event(known: Map<KeyButton, UpDown>, event: InputEvent) -> Map<
    KeyButton,
    UpDown,
> {
    match forwarded(known, event) {
        Some(a) => known.insert(a.0, a.1),
        None => known,
    }
}

/// Whether a forwarded action answers a pending binding request: a press,
/// while a binding waits, of any control but the left mouse button, and of
/// a wheel only where the request allows it.
pub open spec fn captures(
    name: Seq<char>,
    allow_wheel: bool,
    a: KeyButtonAction,
    is_wheel: bool,
) -> bool {
    &&& a.1 == UpDown::Down
    &&& name.len() > 0
    &&& a.0 != KeyButton::Button(Button::Left)
    &&& (allow_wheel || !is_wheel)
}

/// Each control stands once in the list, which holds what the map holds.
spec fn list_holds(v: Seq<(KeyButton, UpDown)>, known: Map<KeyButton, UpDown>) -> bool {
    &&& forall|i: int, j: int| 0 <= i < j < v.len() ==> v[i].0 != v[j].0
    &&& forall|k: KeyButton| #[trigger]
        known.contains_key(k) <==> exists|i: int| 0 <= i < v.len() && v[i].0 == k
    &&& forall|i: int| 0 <= i < v.len() ==> known[#[trigger] v[i].0] == v[i].1
}

/// Turns raw events into actions for the automaton, dropping repeats.
pub struct Listener {
    key_up_downs: Vec<(KeyButton, UpDown)>,
    known: Ghost<Map<KeyButton, UpDown>>,
}

impl View for Listener {
    type V = Map<KeyButton, UpDown>;

    closed spec fn view(&self) -> Map<KeyButton, UpDown> {
        self.known@
    }
}

impl Listener {
    #[verifier::type_invariant]
    spec fn wf(self) -> bool {
        list_holds(self.key_up_downs@, self.known@)
    }

    pub fn new() -> (r: Listener)
        ensures
            r@ == Map::<KeyButton, UpDown>::empty(),
    {
        Listener { key_up_downs: Vec::new(), known: Ghost(Map::empty()) }
    }

    fn position(&self, kb: KeyButton) -> (r: Option<usize>)
        ensures
            match r {
                Some(i) => i < self.key_up_downs@.len() && self.key_up_downs@[i as int].0 == kb,
                None => !self@.contains_key(kb),
            },
    {
        proof {
            use_type_invariant(self);
        }
        let mut i: usize = 0;
        while i < self.key_up_downs.len()
            invariant
                self.wf(),
                i <= self.key_up_downs@.len(),
                forall|j: int| 0 <= j < i ==> self.key_up_downs@[j].0 != kb,
            decreases self.key_up_downs@.len() - i,
        {
            if self.key_up_downs[i].0 == kb {
                return Some(i);
            }
            i = i + 1;
        }
        None
    }

    /// The direction last recorded for `kb`.
    pub fn direction(&self, kb: KeyButton) -> (r: UpDown)
        ensures
            r == known_direction(self@, kb),
    {
        proof {
            use_type_invariant(self);
        }
        match self.position(kb) {
            Some(i) => self.key_up_downs[i].1,
            None => UpDown::Up,
        }
    }

    fn record(&mut self, kb: KeyButton, d: UpDown)
        ensures
            final(self)@ == old(self)@.insert(kb, d),
    {
        proof {
            use_type_invariant(&*self);
        }
        let pos = self.position(kb);
        let mut taken = Listener::new();
        std::mem::swap(self, &mut taken);
        proof {
            use_type_invariant(&taken);
        }
        let Listener { key_up_downs: mut v, known } = taken;
        let ghost v0 = v@;
        assert(forall|i: int, j: int| 0 <= i < j < v0.len() ==> v0[i].0 != v0[j].0);
        assert(forall|i: int| 0 <= i < v0.len() ==> known@[#[trigger] v0[i].0] == v0[i].1);
        assert(forall|k: KeyButton| #[trigger]
            known@.contains_key(k) <==> exists|i: int| 0 <= i < v0.len() && v0[i].0 == k);
        let ghost idx: int;
        match pos {
            Some(i) => {
                v.set(i, (kb, d));
                proof {
                    idx = i as int;
                }
            },
            None => {
                v.push((kb, d));
                proof {
                    idx = v@.len() - 1;
                }
            },
        }
        let ghost m = known@.insert(kb, d);
        proof {
            let w = v@;
            assert(w[idx].0 == kb);
            assert(w.len() == v0.len() || w.len() == v0.len() + 1);
            assert forall|i: int| 0 <= i < w.len() && i != idx implies #[trigger] w[i] == v0[i]
                && w[i].0 != kb by {
                if pos is None {
                    assert(!known@.contains_key(kb));
                    if v0[i].0 == kb {
                        assert(known@.contains_key(kb));
                    }
                }
            }
            assert forall|i: int, j: int| 0 <= i < j < w.len() implies w[i].0 != w[j].0 by {
                if i != idx && j != idx {
                    assert(w[i] == v0[i] && w[j] == v0[j]);
                } else if i == idx {
                    assert(w[j].0 != kb);
                } else {
                    assert(w[i].0 != kb);
                }
            }
            assert forall|i: int| 0 <= i < w.len() implies m[#[trigger] w[i].0] == w[i].1 by {
                if i != idx {
                    assert(w[i] == v0[i]);
                }
            }
            assert forall|k: KeyButton| #[trigger]
                m.contains_key(k) <==> exists|i: int| 0 <= i < w.len() && w[i].0 == k by {
                if m.contains_key(k) && k != kb {
                    assert(known@.contains_key(k));
                    let i = choose|i: int| 0 <= i < v0.len() && v0[i].0 == k;
                    assert(w[i].0 == k);
                }
                if k == kb {
                    assert(w[idx].0 == k);
                }
            }
            assert(list_holds(w, m));
        }
        *self = Listener { key_up_downs: v, known: Ghost(m) };
    }

    /// Handles one raw event: drops it unless it is a new direction for its
    /// control (wheel ticks always pass), answers a pending binding request
    /// with a press, records the direction and feeds the action, stamped
    /// `now` in milliseconds, to the automaton.
    pub fn callback(
        &mut self,
        event: InputEvent,
        listen_state: &mut FrontendListenState,
        fsm: &mut Fsm,
        now: u64,
    ) -> (r: CallbackOutput)
        requires
            old(fsm)@.configured(),
        ensures
            final(self)@ == after_event(old(self)@, event),
            final(fsm)@.configured(),
            final(listen_state).allow_wheel == old(listen_state).allow_wheel,
            match forwarded(old(self)@, event) {
                None => {
                    &&& final(fsm)@ == old(fsm)@
                    &&& r.command is None
                    &&& r.captured is None
                    &&& final(listen_state).name@ == old(listen_state).name@
                },
                Some(a) => {
                    &&& (final(fsm)@, r.command) == old(fsm)@.step(a, now)
                    &&& if captures(
                        old(listen_state).name@,
                        old(listen_state).allow_wheel,
                        a,
                        event.spec_is_wheel(),
                    ) {
                        &&& r.captured matches Some(info) && info.name@ == old(listen_state).name@
                            && info.key_button == a.0
                        &&& final(listen_state).name@.len() == 0
                    } else {
                        &&& r.captured is None
                        &&& final(listen_state).name@ == old(listen_state).name@
                    }
                },
            },
    {
        let key_button = match KeyButton::from_event(event) {
            Some(kb) => kb,
            None => {
                return CallbackOutput { captured: None, command: None };
            },
        };
        let up_down = event.direction();
        let is_wheel_event = event.is_wheel();
        if up_down == self.direction(key_button) && !is_wheel_event {
            return CallbackOutput { captured: None, command: None };
        }
        let mut captured = None;
        if up_down == UpDown::Down {
            if !listen_state.name.as_str().is_empty() && key_button != KeyButton::Button(
                Button::Left,
            ) && (listen_state.allow_wheel || !is_wheel_event) {
                captured = Some(
                    BackendKeyButtonDownInfo { name: listen_state.name.clone(), key_button },
                );
                listen_state.name = String::new();
            }
        }
        self.record(key_button, up_down);
        let command = fsm.try_next_state(key_button, up_down, now);
        CallbackOutput { captured, command }
    }
}

/// Of two events in a row that move the same control, not a wheel, in the
/// same direction, the second is never passed on: a held key reported twice
/// reaches the automaton once at most.
pub proof fn lemma_repeat_dropped(
    known: Map<KeyButton, UpDown>,
    first: InputEvent,
    second: InputEvent,
    kb: KeyButton,
)
    requires
        KeyButton::spec_from_event(first) == Some(kb),
        KeyButton::spec_from_event(second) == Some(kb),
        first.spec_direction() == second.spec_direction(),
        !kb.is_wheel(),
    ensures
        forwarded(after_event(known, first), second) is None,
{
}

/// Every wheel tick that names a control is passed on, whatever was
/// recorded before it.
pub proof fn lemma_wheel_always_forwarded(known: Map<KeyButton, UpDown>, event: InputEvent)
    requires
        event.spec_is_wheel(),
        KeyButton::spec_from_event(event) is Some,
    ensures
        forwarded(known, event) == Some(
            KeyButtonAction(KeyButton::spec_from_event(event)->0, UpDown::Down),
        ),
{
}

} // verus!
