use vstd::prelude::*;

use crate::control::{Key, KeyButton, KeyButtonAction, UpDown};
use crate::fsm::{basic_hide_edges, basic_show_edges, Fsm, FsmModel};
use crate::text::chars_of;

verus! {

/// How the show/hide key is read in the basic configuration.
#[derive(Debug, Clone, Copy, PartialEq, Eq, Structural)]
pub enum ControlBasicMode {
    /// A press shows, the next press hides.
    Simple,
    /// Holding shows, releasing hides.
    Safe,
    /// A press, release and press held shows; releasing hides.
    VerySafe,
}

impl Default for ControlBasicMode {
    fn default() -> (r: Self)
        ensures
            r == ControlBasicMode::VerySafe,
    {
        ControlBasicMode::VerySafe
    }
}

/// The basic configuration: one control per gesture pair, and the mode that
/// shapes the show/hide gestures.
#[derive(Debug, Clone, Copy, PartialEq, Eq, Structural)]
pub struct ControlBasic {
    pub mode: ControlBasicMode,
    pub show_hide: KeyButton,
    pub next_page: KeyButton,
    pub prev_page: KeyButton,
}

impl Default for ControlBasic {
    fn default() -> (r: Self)
        ensures
            r == (ControlBasic {
                mode: ControlBasicMode::VerySafe,
                show_hide: KeyButton::Key(Key::ControlLeft),
                next_page: KeyButton::Key(Key::Alt),
                prev_page: KeyButton::Key(Key::ShiftLeft),
            }),
    {
        ControlBasic {
            mode: ControlBasicMode::default(),
            show_hide: KeyButton::Key(Key::ControlLeft),
            next_page: KeyButton::Key(Key::Alt),
            prev_page: KeyButton::Key(Key::ShiftLeft),
        }
    }
}

/// The control section of the configuration. In advanced mode the gesture
/// tables are set one by one and the basic section is not applied.
#[derive(Debug, Clone, Copy, PartialEq, Eq, Structural)]
pub struct Control {
    pub is_advanced: bool,
    pub basic: ControlBasic,
}

impl Default for Control {
    fn default() -> (r: Self)
        ensures
            !r.is_advanced,
            r.basic == (ControlBasic {
                mode: ControlBasicMode::VerySafe,
                show_hide: KeyButton::Key(Key::ControlLeft),
                next_page: KeyButton::Key(Key::Alt),
                prev_page: KeyButton::Key(Key::ShiftLeft),
            }),
    {
        Control { is_advanced: false, basic: ControlBasic::default() }
    }
}

/// The three controls of the basic configuration.
#[derive(Debug, Clone, Copy, PartialEq, Eq, Structural)]
pub enum BasicBinding {
    ShowHide,
    NextPage,
    PrevPage,
}

/// The name the settings window gives a binding.
pub open spec fn binding_name(b: BasicBinding) -> Seq<char> {
    match b {
        BasicBinding::ShowHide => seq!['s', 'h', 'o', 'w', '_', 'h', 'i', 'd', 'e'],
        BasicBinding::NextPage => seq!['n', 'e', 'x', 't', '_', 'p', 'a', 'g', 'e'],
        BasicBinding::PrevPage => seq!['p', 'r', 'e', 'v', '_', 'p', 'a', 'g', 'e'],
    }
}

fn same_chars(a: &Vec<char>, b: &Vec<char>) -> (r: bool)
    ensures
        r == (a@ == b@),
{
    if a.len() != b.len() {
        return false;
    }
    let mut i: usize = 0;
    while i < a.len()
        invariant
            a@.len() == b@.len(),
            i <= a@.len(),
            forall|j: int| 0 <= j < i ==> a@[j] == b@[j],
        decreases a@.len() - i,
    {
        if a[i] != b[i] {
            return false;
        }
        i = i + 1;
    }
    assert(a@ =~= b@);
    true
}

impl BasicBinding {
    /// The binding a name stands for, if any.
    pub fn from_name(name: &str) -> (r: Option<BasicBinding>)
        ensures
            match r {
                Some(b) => binding_name(b) == name@,
                None => forall|b: BasicBinding| binding_name(b) != name@,
            },
    {
        let chars = chars_of(name);
        let show_hide = vec!['s', 'h', 'o', 'w', '_', 'h', 'i', 'd', 'e'];
        let next_page = vec!['n', 'e', 'x', 't', '_', 'p', 'a', 'g', 'e'];
        let prev_page = vec!['p', 'r', 'e', 'v', '_', 'p', 'a', 'g', 'e'];
        assert(show_hide@ =~= binding_name(BasicBinding::ShowHide));
        assert(next_page@ =~= binding_name(BasicBinding::NextPage));
        assert(prev_page@ =~= binding_name(BasicBinding::PrevPage));
        if same_chars(&chars, &show_hide) {
            Some(BasicBinding::ShowHide)
        } else if same_chars(&chars, &next_page) {
            Some(BasicBinding::NextPage)
        } else if same_chars(&chars, &prev_page) {
            Some(BasicBinding::PrevPage)
        } else {
            None
        }
    }
}

/// Switches to the basic configuration with the show/hide mode `mode`, and
/// gives the automaton the show and hide gestures of that mode.
pub fn apply_basic_control_mode(control: &mut Control, fsm: &mut Fsm, mode: ControlBasicMode)
    ensures
        *final(control) == (Control {
            is_advanced: false,
            basic: ControlBasic { mode, ..old(control).basic },
        }),
        final(fsm)@ == (FsmModel {
            show: basic_show_edges(mode, old(control).basic.show_hide),
            hide: basic_hide_edges(mode, old(control).basic.show_hide),
            ..old(fsm)@.abandon_combo()
        }),
{
    control.is_advanced = false;
    fsm.set_show_hide_with_basic_control(mode, control.basic.show_hide);
    control.basic.mode = mode;
}

/// Switches to the basic configuration, binds `key_button` to `binding`,
/// and gives the automaton the gestures that follow from it.
pub fn apply_basic_control_key_button(
    control: &mut Control,
    fsm: &mut Fsm,
    binding: BasicBinding,
    key_button: KeyButton,
)
    ensures
        !final(control).is_advanced,
        final(control).basic.mode == old(control).basic.mode,
        match binding {
            BasicBinding::ShowHide => {
                &&& final(control).basic == ControlBasic {
                    show_hide: key_button,
                    ..old(control).basic
                }
                &&& final(fsm)@ == (FsmModel {
                    show: basic_show_edges(old(control).basic.mode, key_button),
                    hide: basic_hide_edges(old(control).basic.mode, key_button),
                    ..old(fsm)@.abandon_combo()
                })
            },
            BasicBinding::NextPage => {
                &&& final(control).basic == ControlBasic {
                    next_page: key_button,
                    ..old(control).basic
                }
                &&& final(fsm)@ == (FsmModel {
                    next: seq![KeyButtonAction(key_button, UpDown::Down)],
                    ..old(fsm)@.abandon_combo()
                })
            },
            BasicBinding::PrevPage => {
                &&& final(control).basic == ControlBasic {
                    prev_page: key_button,
                    ..old(control).basic
                }
                &&& final(fsm)@ == (FsmModel {
                    prev: seq![KeyButtonAction(key_button, UpDown::Down)],
                    ..old(fsm)@.abandon_combo()
                })
            },
        },
{
    control.is_advanced = false;
    match binding {
        BasicBinding::ShowHide => {
            fsm.set_show_hide_with_basic_control(control.basic.mode, key_button);
            control.basic.show_hide = key_button;
        },
        BasicBinding::NextPage => {
            fsm.set_next_page_with_basic_control(key_button);
            control.basic.next_page = key_button;
        },
        BasicBinding::PrevPage => {
            fsm.set_prev_page_with_basic_control(key_button);
            control.basic.prev_page = key_button;
        },
    }
}

} // verus!
