use vstd::prelude::*;

use crate::config::{Control, ControlBasicMode};
use crate::control::{KeyButton, KeyButtonAction, UpDown};

verus! {

/// Longest gap, in milliseconds, between two actions of one combo.
pub const COMBO_DURATION: u64 = 250;

/// The four commands the automaton recognizes; each is also the name of the
/// gesture that produces it.
#[derive(Debug, Clone, Copy, PartialEq, Eq, Structural)]
pub enum Gesture {
    Show,
    Hide,
    NextPage,
    PrevPage,
}

impl Gesture {
    /// The stable state a gesture starts from.
    pub open spec fn origin(self) -> FsmState {
        match self {
            Gesture::Show => FsmState::Idle,
            _ => FsmState::Active,
        }
    }

    /// The stable state a completed gesture lands on.
    pub open spec fn target(self) -> FsmState {
        match self {
            Gesture::Hide => FsmState::Idle,
            _ => FsmState::Active,
        }
    }
}

/// `Idle` (overlay hidden) and `Active` (overlay shown) are stable; in
/// `Approaching(g, k)` the first `k + 1` actions of gesture `g` have been seen.
#[derive(Debug, Clone, Copy, PartialEq, Eq, Structural)]
pub enum FsmState {
    Idle,
    Active,
    Approaching(Gesture, usize),
}

/// The abstract automaton: its four edge tables, its current and last stable
/// state, the time of the last accepted action and the pause flag.
pub struct FsmModel {
    pub show: Seq<KeyButtonAction>,
    pub hide: Seq<KeyButtonAction>,
    pub next: Seq<KeyButtonAction>,
    pub prev: Seq<KeyButtonAction>,
    pub state: FsmState,
    pub stable: FsmState,
    pub last_time: u64,
    pub paused: bool,
}

impl FsmModel {
    pub open spec fn edges(self, g: Gesture) -> Seq<KeyButtonAction> {
        match g {
            Gesture::Show => self.show,
            Gesture::Hide => self.hide,
            Gesture::NextPage => self.next,
            Gesture::PrevPage => self.prev,
        }
    }

    /// Every gesture has a non-empty edge table.
    pub open spec fn configured(self) -> bool {
        &&& self.show.len() > 0
        &&& self.hide.len() > 0
        &&& self.next.len() > 0
        &&& self.prev.len() > 0
    }

    /// The last stable state is `Idle` or `Active`; a stable current state is
    /// the last stable state; an approaching state points inside its table
    /// and leaves from the stable state its gesture starts from.
    pub open spec fn wf(self) -> bool {
        &&& (self.stable == FsmState::Idle || self.stable == FsmState::Active)
        &&& match self.state {
            FsmState::Approaching(g, k) => k + 1 < self.edges(g).len() && self.stable
                == g.origin(),
            _ => self.state == self.stable,
        }
    }

    pub open spec fn is_approaching(self) -> bool {
        self.state is Approaching
    }

    /// A combo in progress is abandoned when the new action comes more than
    /// the combo window after the previous one.
    pub open spec fn timed_out(self, now: u64) -> bool {
        self.is_approaching() && now - self.last_time > COMBO_DURATION
    }

    pub open spec fn with_state(self, state: FsmState) -> FsmModel {
        FsmModel { state, ..self }
    }

    pub open spec fn land(self, state: FsmState) -> FsmModel {
        FsmModel { state, stable: state, ..self }
    }

    /// The current state set back to the last stable state.
    pub open spec fn abandon_combo(self) -> FsmModel {
        self.with_state(self.stable)
    }

    /// Having matched the first action of `g`.
    pub open spec fn start(self, g: Gesture) -> (FsmModel, Option<Gesture>) {
        if self.edges(g).len() == 1 {
            (self.land(g.target()), Some(g))
        } else {
            (self.with_state(FsmState::Approaching(g, 0)), None)
        }
    }

    /// Reading `a` in the current state, the timeout already handled.
    pub open spec fn dispatch(self, a: KeyButtonAction) -> (FsmModel, Option<Gesture>) {
        match self.state {
            FsmState::Idle => {
                if a == self.show[0] {
                    self.start(Gesture::Show)
                } else {
                    (self, None)
                }
            },
            FsmState::Active => {
                if a == self.hide[0] {
                    self.start(Gesture::Hide)
                } else if a == self.next[0] {
                    self.start(Gesture::NextPage)
                } else if a == self.prev[0] {
                    self.start(Gesture::PrevPage)
                } else {
                    (self, None)
                }
            },
            FsmState::Approaching(g, k) => {
                if a != self.edges(g)[k + 1] {
                    (self.abandon_combo(), None)
                } else if k + 2 == self.edges(g).len() {
                    (self.land(g.target()), Some(g))
                } else {
                    (self.with_state(FsmState::Approaching(g, (k + 1) as usize)), None)
                }
            },
        }
    }

    /// One step of the automaton: action `a` arriving at time `now`
    /// (milliseconds), with the command it completes, if any.
    pub open spec fn step(self, a: KeyButtonAction, now: u64) -> (FsmModel, Option<Gesture>) {
        if self.paused {
            (self, None)
        } else {
            let m = if self.timed_out(now) {
                self.abandon_combo()
            } else {
                self
            };
            FsmModel { last_time: now, ..m }.dispatch(a)
        }
    }

    /// The model after a sequence of actions with their arrival times, and
    /// the command each action produced.
    pub open spec fn run(self, actions: Seq<KeyButtonAction>, times: Seq<u64>) -> (
        FsmModel,
        Seq<Option<Gesture>>,
    )
        decreases actions.len(),
    {
        if actions.len() == 0 || times.len() == 0 {
            (self, Seq::empty())
        } else {
            let (m, out) = self.run(actions.drop_last(), times.drop_last());
            let (m2, o) = m.step(actions.last(), times.last());
            (m2, out.push(o))
        }
    }
}

/// The edge table that the basic configuration gives the show gesture.
pub open spec fn basic_show_edges(mode: ControlBasicMode, key: KeyButton) -> Seq<KeyButtonAction> {
    match mode {
        ControlBasicMode::VerySafe => seq![
            KeyButtonAction(key, UpDown::Down),
            KeyButtonAction(key, UpDown::Up),
            KeyButtonAction(key, UpDown::Down),
        ],
        _ => seq![KeyButtonAction(key, UpDown::Down)],
    }
}

/// The edge table that the basic configuration gives the hide gesture.
pub open spec fn basic_hide_edges(mode: ControlBasicMode, key: KeyButton) -> Seq<KeyButtonAction> {
    match mode {
        ControlBasicMode::Simple => seq![KeyButtonAction(key, UpDown::Down)],
        _ => seq![KeyButtonAction(key, UpDown::Up)],
    }
}

/// Combo gaps: each action comes at most the combo window after the one
/// before it.
pub open spec fn gaps_within_window(times: Seq<u64>) -> bool {
    forall|i: int| 0 < i < times.len() ==> #[trigger] times[i] - times[i - 1] <= COMBO_DURATION
}

/// The command produced by each of `n` actions when none produced one.
pub open spec fn no_commands(n: nat) -> Seq<Option<Gesture>> {
    Seq::new(n, |i: int| None)
}

/// Which first actions let gesture `g` be started from its stable state:
/// in `Active` the hide table is tried first, then next page, then previous
/// page, so a gesture whose first action starts an earlier one never starts.
pub open spec fn reachable_first(m: FsmModel, g: Gesture) -> bool {
    match g {
        Gesture::NextPage => m.next[0] != m.hide[0],
        Gesture::PrevPage => m.prev[0] != m.hide[0] && m.prev[0] != m.next[0],
        _ => true,
    }
}

proof fn lemma_completion_prefix(m: FsmModel, g: Gesture, times: Seq<u64>, j: nat)
    requires
        m.wf(),
        m.configured(),
        !m.paused,
        m.state == g.origin(),
        reachable_first(m, g),
        times.len() == m.edges(g).len(),
        m.edges(g).len() <= usize::MAX,
        gaps_within_window(times),
        1 <= j < m.edges(g).len(),
    ensures
        m.run(m.edges(g).take(j as int), times.take(j as int)) == (FsmModel {
            state: FsmState::Approaching(g, (j - 1) as usize),
            last_time: times[j - 1],
            ..m
        }, no_commands(j)),
    decreases j,
{
    let e = m.edges(g);
    let a = e.take(j as int);
    let t = times.take(j as int);
    assert(a.drop_last() =~= e.take(j - 1));
    assert(t.drop_last() =~= times.take(j - 1));
    assert(a.last() == e[j - 1]);
    assert(t.last() == times[j - 1]);
    if j == 1 {
        assert(e.take(0) =~= Seq::<KeyButtonAction>::empty());
        assert(times.take(0) =~= Seq::<u64>::empty());
        assert(m.run(e.take(0), times.take(0)) == (m, Seq::<Option<Gesture>>::empty()));
        let m1 = FsmModel { last_time: times[0], ..m };
        assert(m.step(e[0], times[0]) == m1.dispatch(e[0]));
        assert(m1.dispatch(e[0]) == (FsmModel {
            state: FsmState::Approaching(g, 0),
            last_time: times[0],
            ..m
        }, None::<Gesture>));
        assert(no_commands(1) =~= Seq::<Option<Gesture>>::empty().push(None));
    } else {
        lemma_completion_prefix(m, g, times, (j - 1) as nat);
        assert(times[j - 1] - times[j - 2] <= COMBO_DURATION);
        assert(no_commands(j) =~= no_commands((j - 1) as nat).push(None));
    }
}

/// A gesture's edge table fed in order from the stable state it starts
/// from, each action within the combo window of the one before, produces
/// the gesture's command on its last action, nothing before it, and lands
/// on the stable state the gesture leads to (`Active` after show, next page
/// and previous page, `Idle` after hide). For next and previous page the
/// first action must not start a gesture that `Active` tries before them.
pub proof fn lemma_completion(m: FsmModel, g: Gesture, times: Seq<u64>)
    requires
        m.wf(),
        m.configured(),
        !m.paused,
        m.state == g.origin(),
        reachable_first(m, g),
        times.len() == m.edges(g).len(),
        m.edges(g).len() <= usize::MAX,
        gaps_within_window(times),
    ensures
        ({
            let (m2, out) = m.run(m.edges(g), times);
            let n = m.edges(g).len();
            &&& m2.state == g.target()
            &&& m2.stable == g.target()
            &&& m2.wf()
            &&& out.len() == n
            &&& out[n - 1] == Some(g)
            &&& forall|i: int| 0 <= i < n - 1 ==> out[i] is None
        }),
{
    let e = m.edges(g);
    let n = e.len();
    assert(e.drop_last() =~= e.take(n - 1));
    assert(times.drop_last() =~= times.take(n - 1));
    if n == 1 {
        assert(e.take(0) =~= Seq::<KeyButtonAction>::empty());
        assert(times.take(0) =~= Seq::<u64>::empty());
        assert(m.run(e.take(0), times.take(0)) == (m, Seq::<Option<Gesture>>::empty()));
        let m1 = FsmModel { last_time: times[0], ..m };
        assert(m.step(e[0], times[0]) == m1.dispatch(e[0]));
        assert(m1.dispatch(e[0]) == (m1.land(g.target()), Some(g)));
    } else {
        lemma_completion_prefix(m, g, times, (n - 1) as nat);
        assert(times[n - 1] - times[n - 2] <= COMBO_DURATION);
    }
}

/// While the automaton is paused, any sequence of actions leaves it as it
/// was and produces no command.
pub proof fn lemma_pause_isolation(m: FsmModel, actions: Seq<KeyButtonAction>, times: Seq<u64>)
    requires
        m.paused,
        actions.len() == times.len(),
    ensures
        m.run(actions, times) == (m, no_commands(actions.len())),
    decreases actions.len(),
{
    if actions.len() > 0 {
        lemma_pause_isolation(m, actions.drop_last(), times.drop_last());
        assert(no_commands(actions.len()) =~= no_commands((actions.len() - 1) as nat).push(None));
    } else {
        assert(no_commands(0) =~= Seq::<Option<Gesture>>::empty());
    }
}

/// The current state and the last stable one, changed together.
#[derive(Debug, Clone, Copy, PartialEq, Eq, Structural)]
struct Position {
    cur: FsmState,
    stable: FsmState,
}

/// Recognizes gestures in a stream of actions.
#[derive(Debug)]
pub struct Fsm {
    edges_show: Vec<KeyButtonAction>,
    edges_hide: Vec<KeyButtonAction>,
    edges_next: Vec<KeyButtonAction>,
    edges_prev: Vec<KeyButtonAction>,
    position: Position,
    prev_time: u64,
    is_paused: bool,
}

impl View for Fsm {
    type V = FsmModel;

    closed spec fn view(&self) -> FsmModel {
        FsmModel {
            show: self.edges_show@,
            hide: self.edges_hide@,
            next: self.edges_next@,
            prev: self.edges_prev@,
            state: self.position.cur,
            stable: self.position.stable,
            last_time: self.prev_time,
            paused: self.is_paused,
        }
    }
}

impl Fsm {
    #[verifier::type_invariant]
    spec fn inv(self) -> bool {
        self@.wf()
    }

    /// An idle, running automaton with empty edge tables.
    pub fn new() -> (r: Fsm)
        ensures
            r@.state == FsmState::Idle,
            r@.stable == FsmState::Idle,
            !r@.paused,
            r@.last_time == 0,
            r@.show.len() == 0,
            r@.hide.len() == 0,
            r@.next.len() == 0,
            r@.prev.len() == 0,
    {
        Fsm {
            edges_show: Vec::new(),
            edges_hide: Vec::new(),
            edges_next: Vec::new(),
            edges_prev: Vec::new(),
            position: Position { cur: FsmState::Idle, stable: FsmState::Idle },
            prev_time: 0,
            is_paused: false,
        }
    }

    pub fn state(&self) -> (r: FsmState)
        ensures
            r == self@.state,
    {
        self.position.cur
    }

    pub fn stable_state(&self) -> (r: FsmState)
        ensures
            r == self@.stable,
    {
        self.position.stable
    }

    pub fn is_paused(&self) -> (r: bool)
        ensures
            r == self@.paused,
    {
        self.is_paused
    }

    pub fn edges(&self, g: Gesture) -> (r: &Vec<KeyButtonAction>)
        ensures
            r@ == self@.edges(g),
    {
        match g {
            Gesture::Show => &self.edges_show,
            Gesture::Hide => &self.edges_hide,
            Gesture::NextPage => &self.edges_next,
            Gesture::PrevPage => &self.edges_prev,
        }
    }

    /// Whether every gesture has an edge table to follow; actions may be
    /// fed only then.
    pub fn is_configured(&self) -> (r: bool)
        ensures
            r == self@.configured(),
    {
        self.edges_show.len() > 0 && self.edges_hide.len() > 0 && self.edges_next.len() > 0
            && self.edges_prev.len() > 0
    }

    /// Drops any combo in progress.
    fn abandon_combo(&mut self)
        ensures
            final(self)@ == old(self)@.abandon_combo(),
    {
        proof {
            use_type_invariant(&*self);
        }
        self.position = Position { cur: self.position.stable, stable: self.position.stable };
    }

    /// Replaces the edge table of one gesture and drops any combo in progress.
    pub fn set_edges(&mut self, g: Gesture, edges: Vec<KeyButtonAction>)
        requires
            edges@.len() > 0,
        ensures
            final(self)@ == (FsmModel {
                show: if g == Gesture::Show { edges@ } else { old(self)@.show },
                hide: if g == Gesture::Hide { edges@ } else { old(self)@.hide },
                next: if g == Gesture::NextPage { edges@ } else { old(self)@.next },
                prev: if g == Gesture::PrevPage { edges@ } else { old(self)@.prev },
                ..old(self)@.abandon_combo()
            }),
    {
        proof {
            use_type_invariant(&*self);
        }
        self.abandon_combo();
        match g {
            Gesture::Show => self.edges_show = edges,
            Gesture::Hide => self.edges_hide = edges,
            Gesture::NextPage => self.edges_next = edges,
            Gesture::PrevPage => self.edges_prev = edges,
        }
    }

    /// Applies a configuration: the basic section, unless it is advanced.
    /// Either way any combo in progress is dropped.
    pub fn set_with_control(&mut self, control: &Control)
        ensures
            control.is_advanced ==> final(self)@ == old(self)@.abandon_combo(),
            !control.is_advanced ==> final(self)@ == (FsmModel {
                show: basic_show_edges(control.basic.mode, control.basic.show_hide),
                hide: basic_hide_edges(control.basic.mode, control.basic.show_hide),
                next: seq![KeyButtonAction(control.basic.next_page, UpDown::Down)],
                prev: seq![KeyButtonAction(control.basic.prev_page, UpDown::Down)],
                ..old(self)@.abandon_combo()
            }),
    {
        proof {
            use_type_invariant(&*self);
        }
        self.abandon_combo();
        if !control.is_advanced {
            let basic = &control.basic;
            self.set_next_page_with_basic_control(basic.next_page);
            self.set_prev_page_with_basic_control(basic.prev_page);
            self.set_show_hide_with_basic_control(basic.mode, basic.show_hide);
        }
    }

    /// The next-page gesture becomes a single press of `key_button`.
    pub fn set_next_page_with_basic_control(&mut self, key_button: KeyButton)
        ensures
            final(self)@ == (FsmModel {
                next: seq![KeyButtonAction(key_button, UpDown::Down)],
                ..old(self)@.abandon_combo()
            }),
    {
        proof {
            use_type_invariant(&*self);
        }
        self.abandon_combo();
        self.edges_next = vec![KeyButtonAction(key_button, UpDown::Down)];
        assert(self.edges_next@ =~= seq![KeyButtonAction(key_button, UpDown::Down)]);
    }

    /// The previous-page gesture becomes a single press of `key_button`.
    pub fn set_prev_page_with_basic_control(&mut self, key_button: KeyButton)
        ensures
            final(self)@ == (FsmModel {
                prev: seq![KeyButtonAction(key_button, UpDown::Down)],
                ..old(self)@.abandon_combo()
            }),
    {
        proof {
            use_type_invariant(&*self);
        }
        self.abandon_combo();
        self.edges_prev = vec![KeyButtonAction(key_button, UpDown::Down)];
        assert(self.edges_prev@ =~= seq![KeyButtonAction(key_button, UpDown::Down)]);
    }

    /// The show and hide gestures become those of `mode` on `key_button`.
    pub fn set_show_hide_with_basic_control(&mut self, mode: ControlBasicMode, key_button: KeyButton)
        ensures
            final(self)@ == (FsmModel {
                show: basic_show_edges(mode, key_button),
                hide: basic_hide_edges(mode, key_button),
                ..old(self)@.abandon_combo()
            }),
    {
        proof {
            use_type_invariant(&*self);
        }
        self.abandon_combo();
        let down = KeyButtonAction(key_button, UpDown::Down);
        let up = KeyButtonAction(key_button, UpDown::Up);
        match mode {
            ControlBasicMode::Simple => {
                self.edges_show = vec![down];
                self.edges_hide = vec![down];
            },
            ControlBasicMode::Safe => {
                self.edges_show = vec![down];
                self.edges_hide = vec![up];
            },
            ControlBasicMode::VerySafe => {
                self.edges_show = vec![down, up, down];
                self.edges_hide = vec![up];
            },
        }
        proof {
            assert(self.edges_show@ =~= basic_show_edges(mode, key_button));
            assert(self.edges_hide@ =~= basic_hide_edges(mode, key_button));
        }
    }

    /// Goes to `Idle` and ignores every action until `continue_from_pause`.
    pub fn reset_and_pause(&mut self)
        ensures
            final(self)@ == (FsmModel { paused: true, ..old(self)@.land(FsmState::Idle) }),
    {
        proof {
            use_type_invariant(&*self);
        }
        self.go_to_new_stable_state(FsmState::Idle);
        self.is_paused = true;
    }

    pub fn continue_from_pause(&mut self)
        ensures
            final(self)@ == (FsmModel { paused: false, ..old(self)@ }),
    {
        proof {
            use_type_invariant(&*self);
        }
        self.is_paused = false;
    }

    fn go_to_new_stable_state(&mut self, state: FsmState)
        requires
            state == FsmState::Idle || state == FsmState::Active,
        ensures
            final(self)@ == old(self)@.land(state),
    {
        self.position = Position { cur: state, stable: state };
    }

    /// Having matched the first action of `g`, from the stable state it
    /// starts from.
    fn start(&mut self, g: Gesture) -> (r: Option<Gesture>)
        requires
            old(self)@.edges(g).len() > 0,
            old(self)@.state == g.origin(),
        ensures
            (final(self)@, r) == old(self)@.start(g),
    {
        proof {
            use_type_invariant(&*self);
        }
        if self.edges(g).len() == 1 {
            let target = match g {
                Gesture::Hide => FsmState::Idle,
                _ => FsmState::Active,
            };
            self.go_to_new_stable_state(target);
            Some(g)
        } else {
            self.position = Position { cur: FsmState::Approaching(g, 0), stable: self.position.stable };
            None
        }
    }

    /// Feeds one action, arriving at time `now` in milliseconds, and returns
    /// the command it completes, if any.
    pub fn try_next_state(&mut self, key_button: KeyButton, up_down: UpDown, now: u64) -> (r:
        Option<Gesture>)
        requires
            old(self)@.configured(),
        ensures
            (final(self)@, r) == old(self)@.step(KeyButtonAction(key_button, up_down), now),
            final(self)@.configured(),
            // a paused automaton ignores the action
            old(self)@.paused ==> final(self)@ == old(self)@ && r is None,
            // a late action first drops the combo in progress, then is read
            // in the stable state
            !old(self)@.paused && old(self)@.timed_out(now) ==> (final(self)@, r) == old(
                self,
            )@.abandon_combo().step(KeyButtonAction(key_button, up_down), now),
            // an unexpected action in time drops the combo in progress
            !old(self)@.paused && !old(self)@.timed_out(now) && (match old(self)@.state {
                FsmState::Approaching(g, k) => KeyButtonAction(key_button, up_down) != old(
                    self,
                )@.edges(g)[k + 1],
                _ => false,
            }) ==> final(self)@.state == old(self)@.stable && r is None,
    {
        proof {
            use_type_invariant(&*self);
        }
        if self.is_paused {
            return None;
        }
        let ghost m0 = self@;
        let approaching = match self.position.cur {
            FsmState::Approaching(_, _) => true,
            _ => false,
        };
        if approaching && now > self.prev_time && now - self.prev_time > COMBO_DURATION {
            self.abandon_combo();
        }
        self.prev_time = now;
        let action = KeyButtonAction(key_button, up_down);
        match self.position.cur {
            FsmState::Idle => {
                if action == self.edges_show[0] {
                    self.start(Gesture::Show)
                } else {
                    None
                }
            },
            FsmState::Active => {
                if action == self.edges_hide[0] {
                    self.start(Gesture::Hide)
                } else if action == self.edges_next[0] {
                    self.start(Gesture::NextPage)
                } else if action == self.edges_prev[0] {
                    self.start(Gesture::PrevPage)
                } else {
                    None
                }
            },
            FsmState::Approaching(g, step) => {
                let edges = self.edges(g);
                let n = edges.len();
                assert(self@.state == m0.state);
                if action != edges[step + 1] {
                    self.abandon_combo();
                    None
                } else if n == step + 2 {
                    let target = match g {
                        Gesture::Hide => FsmState::Idle,
                        _ => FsmState::Active,
                    };
                    self.go_to_new_stable_state(target);
                    Some(g)
                } else {
                    self.position = Position {
                        cur: FsmState::Approaching(g, step + 1),
                        stable: self.position.stable,
                    };
                    None
                }
            },
        }
    }
}

} // verus!
