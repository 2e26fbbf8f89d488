//! Declarative key/button-to-action bindings and their resolution against
//! incoming input events.

use vstd::prelude::*;
use vstd::string::StringExecFns;
use crate::layout::LayoutType;
use crate::layout::StackMode;
use crate::layout::StackPosition;

verus! {

// Modifier bits of the input protocol.
pub const SHIFT_MASK: u32 = 0x1;
pub const LOCK_MASK: u32 = 0x2;
pub const CONTROL_MASK: u32 = 0x4;
pub const MOD1_MASK: u32 = 0x8;
pub const MOD2_MASK: u32 = 0x10;
pub const MOD3_MASK: u32 = 0x20;
pub const MOD4_MASK: u32 = 0x40;
pub const MOD5_MASK: u32 = 0x80;

// Key symbols of the keys the default bindings use.
pub const XK_SPACE: u32 = 0x20;
pub const XK_COMMA: u32 = 0x2c;
pub const XK_PERIOD: u32 = 0x2e;
pub const XK_C: u32 = 0x63;
pub const XK_D: u32 = 0x64;
pub const XK_E: u32 = 0x65;
pub const XK_F: u32 = 0x66;
pub const XK_H: u32 = 0x68;
pub const XK_I: u32 = 0x69;
pub const XK_J: u32 = 0x6a;
pub const XK_K: u32 = 0x6b;
pub const XK_L: u32 = 0x6c;
pub const XK_M: u32 = 0x6d;
pub const XK_N: u32 = 0x6e;
pub const XK_Q: u32 = 0x71;
pub const XK_R: u32 = 0x72;
pub const XK_S: u32 = 0x73;
pub const XK_T: u32 = 0x74;
pub const XK_BACKSPACE: u32 = 0xff08;
pub const XK_TAB: u32 = 0xff09;
pub const XK_LEFT: u32 = 0xff51;
pub const XK_UP: u32 = 0xff52;
pub const XK_RIGHT: u32 = 0xff53;
pub const XK_DOWN: u32 = 0xff54;
pub const XK_F1: u32 = 0xffbe;
pub const XK_F11: u32 = 0xffc8;
pub const XK_F12: u32 = 0xffc9;

/// Only these modifier bits are honored when bindings are compared. The caps
/// lock bit and the num lock bit (conventionally the second mod group) are
/// masked out, so bindings match regardless of lock-key state.
pub const HONORED_MODIFIERS: u32 = 0xed;

/// Masks an incoming modifier state down to the honored bits, so bindings
/// match regardless of lock-key state.
pub fn sanitize_modifiers(modifiers: u32) -> (r: u32)
    ensures
        r == modifiers & HONORED_MODIFIERS,
{
    proof {
        assert(0x1u32 | 0x4u32 | 0x8u32 | 0x20u32 | 0x40u32 | 0x80u32 == 0xedu32)
            by (bit_vector);
    }
    modifiers & (SHIFT_MASK | CONTROL_MASK | MOD1_MASK | MOD3_MASK | MOD4_MASK | MOD5_MASK)
}

/// A named modifier key usable in a binding.
#[derive(Clone, Copy, Debug, PartialEq, Eq, Structural)]
pub enum Modifier {
    Mod1,
    Mod4,
    Shift,
    Control,
}

impl Modifier {
    pub open spec fn spec_mask(&self) -> u32 {
        match self {
            Modifier::Mod1 => MOD1_MASK,
            Modifier::Mod4 => MOD4_MASK,
            Modifier::Shift => SHIFT_MASK,
            Modifier::Control => CONTROL_MASK,
        }
    }

    /// The protocol bit of this modifier.
    pub fn mask(&self) -> (r: u32)
        ensures
            r == self.spec_mask(),
    {
        match self {
            Modifier::Mod1 => MOD1_MASK,
            Modifier::Mod4 => MOD4_MASK,
            Modifier::Shift => SHIFT_MASK,
            Modifier::Control => CONTROL_MASK,
        }
    }
}

/// The modifier key that most default bindings use.
pub const MODKEY: Modifier = Modifier::Mod1;

/// The modifier key reserved for launcher-style default bindings.
pub const STARTKEY: Modifier = Modifier::Mod4;

/// The combined mask of a modifier list.
pub open spec fn mods_mask(mods: Seq<Modifier>) -> u32
    decreases mods.len(),
{
    if mods.len() == 0 {
        0u32
    } else {
        mods_mask(mods.drop_last()) | mods.last().spec_mask()
    }
}

/// Exec computation of `mods_mask`.
pub fn mods_mask_exec(mods: &Vec<Modifier>) -> (r: u32)
    ensures
        r == mods_mask(mods@),
{
    let mut acc: u32 = 0;
    let mut i: usize = 0;
    while i < mods.len()
        invariant
            i <= mods@.len(),
            acc == mods_mask(mods@.subrange(0, i as int)),
        decreases mods@.len() - i,
    {
        proof {
            assert(mods@.subrange(0, i + 1).drop_last() =~= mods@.subrange(0, i as int));
            assert(mods@.subrange(0, i + 1).last() == mods@[i as int]);
        }
        acc = acc | mods[i].mask();
        i = i + 1;
    }
    proof {
        assert(mods@.subrange(0, mods@.len() as int) =~= mods@);
    }
    acc
}

/// Which window a pointer binding applies to.
#[derive(Clone, Copy, Debug, PartialEq, Eq, Structural)]
pub enum ButtonTarget {
    /// the client window itself
    Window,
    /// the decoration frame around it
    Frame,
    /// the root window
    Root,
}

/// Actions for key bindings and button bindings: a closed set of operation
/// tags carrying typed parameters.
#[derive(Clone, Debug, PartialEq)]
pub enum BindingAction {
    /// Center the current client on the screen
    CenterClient,
    /// Change the ratio between main and stack area, in thousandths
    ChangeMainRatio(i32),
    /// Close the client
    CloseClient,
    /// Cycle through clients
    CycleClient(i32),
    /// Switch through the different layouts
    CycleLayout,
    /// Switch monitor (relative to the current monitor)
    CycleMonitor(i32),
    /// Cycle through workspaces
    CycleWorkspace(i32),
    /// Execute a command in the system shell
    Execute(String),
    /// Exit the window manager
    Exit,
    /// Switch between the last focused window of the main and stack area
    FocusMain,
    /// Increase or decrease the gap width of the current workspace
    IncGaps(i32),
    /// Increase or decrease the number of clients in the main area
    IncNMain(i32),
    /// Move the client with the mouse
    MouseMove,
    /// Place a window with the mouse
    MousePlace,
    /// Resize a window with the mouse
    MouseResize,
    /// Resize a window around its center
    MouseResizeCentered,
    /// Move client to/from the main area
    MoveMain,
    /// Move the client to a different monitor (relative to the current one)
    MoveMonitor(i32),
    /// Move the client to a different workspace
    MoveWorkspace(u32),
    /// Switch to the previously focused workspace
    PreviousWorkspace,
    /// Restart the window manager
    Restart,
    /// Set the layout
    SetLayout(LayoutType),
    /// Set the stack mode for the dynamic layout
    SetStackMode(StackMode),
    /// Set the stack position for the dynamic layout
    SetStackPosition(StackPosition),
    /// Move the client up or down the stack
    StackMove(i32),
    /// Switch to a different workspace
    SwitchWorkspace(u32),
    /// Toggle floating state on the window
    ToggleFloating,
    /// Toggle fullscreen state on the window
    ToggleFullscreen,
}

/// A key binding: modifiers plus a key symbol, and the action to run.
pub struct KeyBinding {
    /// modifiers that apply to this binding
    pub modifiers: Vec<Modifier>,
    /// the key symbol the binding fires on
    pub key: u32,
    /// action to execute on key press
    pub action: BindingAction,
}

/// True when the binding fires for the sanitized modifier mask and key.
pub open spec fn key_binding_matches(b: &KeyBinding, modifiers: u32, key: u32) -> bool {
    modifiers == mods_mask(b.modifiers@) && key == b.key
}

impl KeyBinding {
    pub fn new(modifiers: Vec<Modifier>, key: u32, action: BindingAction) -> (b: KeyBinding)
        ensures
            b.modifiers@ == modifiers@,
            b.key == key,
            b.action == action,
    {
        KeyBinding { modifiers, key, action }
    }

    pub fn action(&self) -> (r: &BindingAction)
        ensures
            r == &self.action,
    {
        &self.action
    }

    pub fn key(&self) -> (r: u32)
        ensures
            r == self.key,
    {
        self.key
    }

    /// The combined modifier mask of the binding.
    pub fn modifiers(&self) -> (r: u32)
        ensures
            r == mods_mask(self.modifiers@),
    {
        mods_mask_exec(&self.modifiers)
    }

    /// Exact-equality test against a sanitized modifier mask and key symbol.
    pub fn matches(&self, modifiers: u32, key: u32) -> (r: bool)
        ensures
            r == key_binding_matches(self, modifiers, key),
    {
        let m = self.modifiers();
        modifiers == m && key == self.key
    }
}

/// A pointer binding: modifiers plus a button index and the targets it
/// applies to, and the action to run.
pub struct ButtonBinding {
    /// modifiers that apply to this binding
    pub modifiers: Vec<Modifier>,
    /// button index (1, 2, 3 for left, middle, right)
    pub button: u32,
    /// which windows the binding applies to
    pub targets: Vec<ButtonTarget>,
    /// action to execute on button press
    pub action: BindingAction,
}

/// True when the binding fires for the sanitized modifier mask, button and
/// target class.
pub open spec fn button_binding_matches(
    b: &ButtonBinding,
    modifiers: u32,
    button: u32,
    target: ButtonTarget,
) -> bool {
    modifiers == mods_mask(b.modifiers@) && button == b.button && b.targets@.contains(target)
}

impl ButtonBinding {
    pub fn new(modifiers: Vec<Modifier>, button: u32, targets: Vec<ButtonTarget>, action: BindingAction) -> (b: ButtonBinding)
        ensures
            b.modifiers@ == modifiers@,
            b.button == button,
            b.targets@ == targets@,
            b.action == action,
    {
        ButtonBinding { modifiers, button, targets, action }
    }

    pub fn action(&self) -> (r: &BindingAction)
        ensures
            r == &self.action,
    {
        &self.action
    }

    pub fn button(&self) -> (r: u32)
        ensures
            r == self.button,
    {
        self.button
    }

    /// The combined modifier mask of the binding.
    pub fn modifiers(&self) -> (r: u32)
        ensures
            r == mods_mask(self.modifiers@),
    {
        mods_mask_exec(&self.modifiers)
    }

    pub fn targets(&self) -> (r: &Vec<ButtonTarget>)
        ensures
            r@ == self.targets@,
    {
        &self.targets
    }

    /// Exact-equality test against a sanitized modifier mask, button index
    /// and target class.
    pub fn matches(&self, modifiers: u32, button: u32, target: ButtonTarget) -> (r: bool)
        ensures
            r == button_binding_matches(self, modifiers, button, target),
    {
        let m = self.modifiers();
        if modifiers != m || button != self.button {
            return false;
        }
        let n = self.targets.len();
        let mut i: usize = 0;
        while i < n
            invariant
                i <= n,
                n == self.targets@.len(),
                modifiers == mods_mask(self.modifiers@),
                button == self.button,
                forall|j: int| 0 <= j < i ==> self.targets@[j] != target,
            decreases n - i,
        {
            if self.targets[i] == target {
                assert(self.targets@.contains(target)) by {
                    assert(self.targets@[i as int] == target);
                }
                return true;
            }
            i = i + 1;
        }
        false
    }
}

/// Resolves a key event against the binding table: the first binding in table
/// order whose sanitized modifiers and key match is selected; an event
/// matching no binding produces no action.
pub fn resolve_key_binding(bindings: &Vec<KeyBinding>, modifiers: u32, key: u32) -> (r: Option<
    usize,
>)
    ensures
        match r {
            Some(i) => {
                &&& i < bindings@.len()
                &&& key_binding_matches(&bindings@[i as int], modifiers, key)
                &&& forall|j: int|
                    0 <= j < i ==> !key_binding_matches(&bindings@[j], modifiers, key)
            },
            None => forall|j: int|
                0 <= j < bindings@.len() ==> !key_binding_matches(&bindings@[j], modifiers, key),
        },
{
    let n = bindings.len();
    let mut i: usize = 0;
    while i < n
        invariant
            i <= n,
            n == bindings@.len(),
            forall|j: int| 0 <= j < i ==> !key_binding_matches(&bindings@[j], modifiers, key),
        decreases n - i,
    {
        if bindings[i].matches(modifiers, key) {
            return Some(i);
        }
        i = i + 1;
    }
    None
}

/// Resolves a button event against the binding table: the first binding in
/// table order whose sanitized modifiers, button and target class match is
/// selected; an event matching no binding produces no action.
pub fn resolve_button_binding(
    bindings: &Vec<ButtonBinding>,
    modifiers: u32,
    button: u32,
    target: ButtonTarget,
) -> (r: Option<usize>)
    ensures
        match r {
            Some(i) => {
                &&& i < bindings@.len()
                &&& button_binding_matches(&bindings@[i as int], modifiers, button, target)
                &&& forall|j: int|
                    0 <= j < i ==> !button_binding_matches(&bindings@[j], modifiers, button, target)
            },
            None => forall|j: int|
                0 <= j < bindings@.len() ==> !button_binding_matches(
                    &bindings@[j],
                    modifiers,
                    button,
                    target,
                ),
        },
{
    let n = bindings.len();
    let mut i: usize = 0;
    while i < n
        invariant
            i <= n,
            n == bindings@.len(),
            forall|j: int|
                0 <= j < i ==> !button_binding_matches(&bindings@[j], modifiers, button, target),
        decreases n - i,
    {
        if bindings[i].matches(modifiers, button, target) {
            return Some(i);
        }
        i = i + 1;
    }
    None
}


/// An empty modifier list.
fn no_mods() -> (v: Vec<Modifier>)
    ensures
        mods_mask(v@) == 0u32,
{
    let v: Vec<Modifier> = Vec::new();
    v
}

/// A one-modifier list.
fn mods1(a: Modifier) -> (v: Vec<Modifier>)
    ensures
        mods_mask(v@) == a.spec_mask(),
{
    let mut v: Vec<Modifier> = Vec::new();
    v.push(a);
    proof {
        reveal_with_fuel(mods_mask, 2);
        assert(v@.drop_last() =~= Seq::<Modifier>::empty());
        let m: u32 = a.spec_mask();
        assert(0u32 | m == m) by (bit_vector);
    }
    v
}

/// A two-modifier list.
fn mods2(a: Modifier, b: Modifier) -> (v: Vec<Modifier>)
    ensures
        mods_mask(v@) == (a.spec_mask() | b.spec_mask()),
{
    let mut v: Vec<Modifier> = Vec::new();
    v.push(a);
    v.push(b);
    proof {
        reveal_with_fuel(mods_mask, 3);
        assert(v@.drop_last() =~= seq![a]);
        assert(v@.drop_last().drop_last() =~= Seq::<Modifier>::empty());
        let ma: u32 = a.spec_mask();
        let mb: u32 = b.spec_mask();
        assert((0u32 | ma) | mb == ma | mb) by (bit_vector);
    }
    v
}

/// A key binding on the main modifier key.
fn kb(key: u32, action: BindingAction) -> (b: KeyBinding)
    ensures
        b.key == key,
        b.action == action,
        mods_mask(b.modifiers@) == MOD1_MASK,
{
    KeyBinding::new(mods1(MODKEY), key, action)
}

/// A key binding on the main modifier key plus shift.
fn kb_shift(key: u32, action: BindingAction) -> (b: KeyBinding)
    ensures
        b.key == key,
        b.action == action,
        mods_mask(b.modifiers@) == (MOD1_MASK | SHIFT_MASK),
{
    KeyBinding::new(mods2(MODKEY, Modifier::Shift), key, action)
}

/// A key binding on the main modifier key plus control.
fn kb_ctrl(key: u32, action: BindingAction) -> (b: KeyBinding)
    ensures
        b.key == key,
        b.action == action,
        mods_mask(b.modifiers@) == (MOD1_MASK | CONTROL_MASK),
{
    KeyBinding::new(mods2(MODKEY, Modifier::Control), key, action)
}

/// The built-in key binding table. After thirty-four fixed bindings it holds,
/// for each of the first `min(nworkspaces, 9)` workspaces, a switch binding
/// and a move binding on the workspace's function key.
pub fn default_key_bindings(nworkspaces: u32) -> (r: Vec<KeyBinding>)
    ensures
        r@.len() == 34 + 2 * (if nworkspaces < 9 {
            nworkspaces as int
        } else {
            9
        }),
        r@[0].key == XK_D && (r@[0].action matches BindingAction::Execute(cmd) && cmd@
            == "dmenu_run"@) && mods_mask(r@[0].modifiers@) == MOD1_MASK,
        r@[3].key == XK_J && r@[3].action == BindingAction::CycleClient(1i32) && mods_mask(
            r@[3].modifiers@,
        ) == MOD1_MASK,
        r@[9].key == XK_L && r@[9].action == BindingAction::ChangeMainRatio(50i32),
        r@[13].key == XK_Q && r@[13].action == BindingAction::CloseClient,
        r@[14].key == XK_T && r@[14].action == BindingAction::SetLayout(LayoutType::Dynamic),
        forall|i: int|
            0 <= i < (if nworkspaces < 9 {
                nworkspaces as int
            } else {
                9
            }) ==> {
                &&& #[trigger] r@[34 + 2 * i].key == XK_F1 + i
                &&& r@[34 + 2 * i].action == BindingAction::SwitchWorkspace(i as u32)
                &&& mods_mask(r@[34 + 2 * i].modifiers@) == MOD1_MASK
                &&& r@[35 + 2 * i].key == XK_F1 + i
                &&& r@[35 + 2 * i].action == BindingAction::MoveWorkspace(i as u32)
                &&& mods_mask(r@[35 + 2 * i].modifiers@) == (MOD1_MASK | SHIFT_MASK)
            },
{
    let mut r: Vec<KeyBinding> = Vec::new();
    r.push(kb(XK_D, BindingAction::Execute(String::from_str("dmenu_run"))));
    r.push(kb(XK_R, BindingAction::Execute(String::from_str("rofi -show drun"))));
    r.push(KeyBinding::new(mods1(STARTKEY), XK_T, BindingAction::Execute(String::from_str("alacritty"))));
    r.push(kb(XK_J, BindingAction::CycleClient(1)));
    r.push(kb(XK_K, BindingAction::CycleClient(-1)));
    r.push(kb_shift(XK_J, BindingAction::StackMove(1)));
    r.push(kb_shift(XK_K, BindingAction::StackMove(-1)));
    r.push(kb(XK_I, BindingAction::IncNMain(1)));
    r.push(kb_shift(XK_I, BindingAction::IncNMain(-1)));
    r.push(kb(XK_L, BindingAction::ChangeMainRatio(50)));
    r.push(kb(XK_H, BindingAction::ChangeMainRatio(-50)));
    r.push(kb(XK_SPACE, BindingAction::MoveMain));
    r.push(kb(XK_TAB, BindingAction::PreviousWorkspace));
    r.push(kb(XK_Q, BindingAction::CloseClient));
    r.push(kb(XK_T, BindingAction::SetLayout(LayoutType::Dynamic)));
    r.push(kb(XK_F, BindingAction::SetLayout(LayoutType::Floating)));
    r.push(kb(XK_M, BindingAction::SetLayout(LayoutType::Monocle)));
    r.push(kb_shift(XK_SPACE, BindingAction::ToggleFloating));
    r.push(kb(XK_F12, BindingAction::CycleWorkspace(1)));
    r.push(kb(XK_F11, BindingAction::CycleWorkspace(-1)));
    r.push(kb(XK_COMMA, BindingAction::CycleMonitor(-1)));
    r.push(kb(XK_PERIOD, BindingAction::CycleMonitor(1)));
    r.push(kb_shift(XK_COMMA, BindingAction::MoveMonitor(-1)));
    r.push(kb_shift(XK_PERIOD, BindingAction::MoveMonitor(1)));
    r.push(kb_shift(XK_E, BindingAction::Exit));
    r.push(kb(XK_N, BindingAction::CycleLayout));
    r.push(kb(XK_S, BindingAction::SetLayout(LayoutType::Stack)));
    r.push(kb_ctrl(XK_T, BindingAction::SetLayout(LayoutType::BottomStack)));
    r.push(kb(XK_C, BindingAction::SetLayout(LayoutType::Deck)));
    r.push(kb_ctrl(XK_BACKSPACE, BindingAction::Restart));
    r.push(kb(XK_DOWN, BindingAction::SetStackPosition(StackPosition::Top)));
    r.push(kb(XK_LEFT, BindingAction::SetStackPosition(StackPosition::Right)));
    r.push(kb(XK_UP, BindingAction::SetStackPosition(StackPosition::Bottom)));
    r.push(kb(XK_RIGHT, BindingAction::SetStackPosition(StackPosition::Left)));
    let nws: u32 = if nworkspaces < 9 {
        nworkspaces
    } else {
        9
    };
    let ghost fixed = r@;
    let mut i: u32 = 0;
    while i < nws
        invariant
            i <= nws,
            nws <= 9,
            fixed.len() == 34,
            r@.len() == 34 + 2 * i,
            fixed[0].key == XK_D && (fixed[0].action matches BindingAction::Execute(cmd) && cmd@
                == "dmenu_run"@) && mods_mask(fixed[0].modifiers@) == MOD1_MASK,
            fixed[3].key == XK_J && fixed[3].action == BindingAction::CycleClient(1i32)
                && mods_mask(fixed[3].modifiers@) == MOD1_MASK,
            fixed[9].key == XK_L && fixed[9].action == BindingAction::ChangeMainRatio(50i32),
            fixed[13].key == XK_Q && fixed[13].action == BindingAction::CloseClient,
            fixed[14].key == XK_T && fixed[14].action == BindingAction::SetLayout(
                LayoutType::Dynamic,
            ),
            forall|j: int| 0 <= j < 34 ==> r@[j] == fixed[j],
            forall|j: int|
                0 <= j < i ==> {
                    &&& #[trigger] r@[34 + 2 * j].key == XK_F1 + j
                    &&& r@[34 + 2 * j].action == BindingAction::SwitchWorkspace(j as u32)
                    &&& mods_mask(r@[34 + 2 * j].modifiers@) == MOD1_MASK
                    &&& r@[35 + 2 * j].key == XK_F1 + j
                    &&& r@[35 + 2 * j].action == BindingAction::MoveWorkspace(j as u32)
                    &&& mods_mask(r@[35 + 2 * j].modifiers@) == (MOD1_MASK | SHIFT_MASK)
                },
        decreases nws - i,
    {
        let b1 = kb(XK_F1 + i, BindingAction::SwitchWorkspace(i));
        let b2 = kb_shift(XK_F1 + i, BindingAction::MoveWorkspace(i));
        let ghost gb1 = b1;
        let ghost gb2 = b2;
        r.push(b1);
        r.push(b2);
        proof {
            assert(r@[34 + 2 * (i as int)] == gb1);
            assert(r@[35 + 2 * (i as int)] == gb2);
        }
        i = i + 1;
    }
    r
}

/// The targets of a frame-only pointer binding.
fn frame_targets() -> (v: Vec<ButtonTarget>)
    ensures
        v@ =~= seq![ButtonTarget::Frame],
{
    let mut v: Vec<ButtonTarget> = Vec::new();
    v.push(ButtonTarget::Frame);
    v
}

/// The targets of a pointer binding on the client window or its frame.
fn window_frame_targets() -> (v: Vec<ButtonTarget>)
    ensures
        v@ =~= seq![ButtonTarget::Window, ButtonTarget::Frame],
{
    let mut v: Vec<ButtonTarget> = Vec::new();
    v.push(ButtonTarget::Window);
    v.push(ButtonTarget::Frame);
    v
}

/// The built-in pointer binding table.
pub fn default_button_bindings() -> (r: Vec<ButtonBinding>)
    ensures
        r@.len() == 13,
        r@[0].button == 1 && r@[0].action == BindingAction::MousePlace && mods_mask(
            r@[0].modifiers@,
        ) == 0 && r@[0].targets@ == seq![ButtonTarget::Frame],
        r@[1].button == 1 && r@[1].action == BindingAction::MousePlace && mods_mask(
            r@[1].modifiers@,
        ) == MOD1_MASK && r@[1].targets@ == seq![ButtonTarget::Window, ButtonTarget::Frame],
        r@[2].button == 2 && (r@[2].action matches BindingAction::Execute(cmd) && cmd@
            == "mars-relay menu"@) && mods_mask(r@[2].modifiers@) == 0 && r@[2].targets@ == seq![
            ButtonTarget::Frame,
        ],
        r@[3].button == 2 && (r@[3].action matches BindingAction::Execute(cmd) && cmd@
            == "mars-relay menu"@) && mods_mask(r@[3].modifiers@) == MOD1_MASK && r@[3].targets@
            == seq![ButtonTarget::Window, ButtonTarget::Frame],
        r@[4].button == 2 && r@[4].action == BindingAction::CloseClient && mods_mask(
            r@[4].modifiers@,
        ) == (MOD1_MASK | SHIFT_MASK) && r@[4].targets@ == seq![
            ButtonTarget::Window,
            ButtonTarget::Frame,
        ],
        r@[5].button == 3 && r@[5].action == BindingAction::MouseResize && mods_mask(
            r@[5].modifiers@,
        ) == 0 && r@[5].targets@ == seq![ButtonTarget::Frame],
        r@[6].button == 3 && r@[6].action == BindingAction::MouseResize && mods_mask(
            r@[6].modifiers@,
        ) == MOD1_MASK && r@[6].targets@ == seq![ButtonTarget::Window, ButtonTarget::Frame],
        r@[7].button == 3 && r@[7].action == BindingAction::MouseResizeCentered && mods_mask(
            r@[7].modifiers@,
        ) == CONTROL_MASK && r@[7].targets@ == seq![ButtonTarget::Frame],
        r@[8].button == 3 && r@[8].action == BindingAction::MouseResizeCentered && mods_mask(
            r@[8].modifiers@,
        ) == (MOD1_MASK | CONTROL_MASK) && r@[8].targets@ == seq![
            ButtonTarget::Window,
            ButtonTarget::Frame,
        ],
        r@[9].button == 4 && r@[9].action == BindingAction::CycleClient(-1i32) && mods_mask(
            r@[9].modifiers@,
        ) == MOD1_MASK && r@[9].targets@ == seq![ButtonTarget::Window, ButtonTarget::Frame],
        r@[10].button == 4 && r@[10].action == BindingAction::StackMove(-1i32) && mods_mask(
            r@[10].modifiers@,
        ) == (MOD1_MASK | SHIFT_MASK) && r@[10].targets@ == seq![
            ButtonTarget::Window,
            ButtonTarget::Frame,
        ],
        r@[11].button == 5 && r@[11].action == BindingAction::CycleClient(1i32) && mods_mask(
            r@[11].modifiers@,
        ) == MOD1_MASK && r@[11].targets@ == seq![ButtonTarget::Window, ButtonTarget::Frame],
        r@[12].button == 5 && r@[12].action == BindingAction::StackMove(1i32) && mods_mask(
            r@[12].modifiers@,
        ) == (MOD1_MASK | SHIFT_MASK) && r@[12].targets@ == seq![
            ButtonTarget::Window,
            ButtonTarget::Frame,
        ],
{
    let mut r: Vec<ButtonBinding> = Vec::new();
    r.push(ButtonBinding::new(no_mods(), 1, frame_targets(), BindingAction::MousePlace));
    r.push(ButtonBinding::new(mods1(MODKEY), 1, window_frame_targets(), BindingAction::MousePlace));
    r.push(ButtonBinding::new(no_mods(), 2, frame_targets(), BindingAction::Execute(String::from_str("mars-relay menu"))));
    r.push(ButtonBinding::new(mods1(MODKEY), 2, window_frame_targets(), BindingAction::Execute(String::from_str("mars-relay menu"))));
    r.push(ButtonBinding::new(mods2(MODKEY, Modifier::Shift), 2, window_frame_targets(), BindingAction::CloseClient));
    r.push(ButtonBinding::new(no_mods(), 3, frame_targets(), BindingAction::MouseResize));
    r.push(ButtonBinding::new(mods1(MODKEY), 3, window_frame_targets(), BindingAction::MouseResize));
    r.push(ButtonBinding::new(mods1(Modifier::Control), 3, frame_targets(), BindingAction::MouseResizeCentered));
    r.push(ButtonBinding::new(mods2(MODKEY, Modifier::Control), 3, window_frame_targets(), BindingAction::MouseResizeCentered));
    r.push(ButtonBinding::new(mods1(MODKEY), 4, window_frame_targets(), BindingAction::CycleClient(-1)));
    r.push(ButtonBinding::new(mods2(MODKEY, Modifier::Shift), 4, window_frame_targets(), BindingAction::StackMove(-1)));
    r.push(ButtonBinding::new(mods1(MODKEY), 5, window_frame_targets(), BindingAction::CycleClient(1)));
    r.push(ButtonBinding::new(mods2(MODKEY, Modifier::Shift), 5, window_frame_targets(), BindingAction::StackMove(1)));
    r
}


/// Equality of two actions: exact, except that the command string of an
/// `Execute` is compared by its characters.
pub open spec fn action_like(a: BindingAction, b: BindingAction) -> bool {
    match (a, b) {
        (BindingAction::Execute(x), BindingAction::Execute(y)) => x@ == y@,
        _ => a == b,
    }
}

/// A character-exact copy of a command string.
pub fn clone_string(s: &String) -> (r: String)
    ensures
        r@ == s@,
{
    s.clone()
}

/// An owned copy of an action (the dispatcher executes a copy so that the
/// binding table stays borrowed immutably).
pub fn clone_action(a: &BindingAction) -> (r: BindingAction)
    ensures
        action_like(r, *a),
{
    match a {
        BindingAction::CenterClient => BindingAction::CenterClient,
        BindingAction::ChangeMainRatio(d) => BindingAction::ChangeMainRatio(*d),
        BindingAction::CloseClient => BindingAction::CloseClient,
        BindingAction::CycleClient(d) => BindingAction::CycleClient(*d),
        BindingAction::CycleLayout => BindingAction::CycleLayout,
        BindingAction::CycleMonitor(d) => BindingAction::CycleMonitor(*d),
        BindingAction::CycleWorkspace(d) => BindingAction::CycleWorkspace(*d),
        BindingAction::Execute(cmd) => BindingAction::Execute(clone_string(cmd)),
        BindingAction::Exit => BindingAction::Exit,
        BindingAction::FocusMain => BindingAction::FocusMain,
        BindingAction::IncGaps(d) => BindingAction::IncGaps(*d),
        BindingAction::IncNMain(d) => BindingAction::IncNMain(*d),
        BindingAction::MouseMove => BindingAction::MouseMove,
        BindingAction::MousePlace => BindingAction::MousePlace,
        BindingAction::MouseResize => BindingAction::MouseResize,
        BindingAction::MouseResizeCentered => BindingAction::MouseResizeCentered,
        BindingAction::MoveMain => BindingAction::MoveMain,
        BindingAction::MoveMonitor(d) => BindingAction::MoveMonitor(*d),
        BindingAction::MoveWorkspace(d) => BindingAction::MoveWorkspace(*d),
        BindingAction::PreviousWorkspace => BindingAction::PreviousWorkspace,
        BindingAction::Restart => BindingAction::Restart,
        BindingAction::SetLayout(l) => BindingAction::SetLayout(*l),
        BindingAction::SetStackMode(m) => BindingAction::SetStackMode(*m),
        BindingAction::SetStackPosition(p) => BindingAction::SetStackPosition(*p),
        BindingAction::StackMove(d) => BindingAction::StackMove(*d),
        BindingAction::SwitchWorkspace(d) => BindingAction::SwitchWorkspace(*d),
        BindingAction::ToggleFloating => BindingAction::ToggleFloating,
        BindingAction::ToggleFullscreen => BindingAction::ToggleFullscreen,
    }
}

/// True of the actions that operate on a target client; they are no-ops when
/// no client is associated with the triggering event (never an error).
pub open spec fn needs_target(a: BindingAction) -> bool {
    match a {
        BindingAction::CenterClient => true,
        BindingAction::CloseClient => true,
        BindingAction::MouseMove => true,
        BindingAction::MousePlace => true,
        BindingAction::MouseResize => true,
        BindingAction::MouseResizeCentered => true,
        BindingAction::MoveMain => true,
        BindingAction::MoveMonitor(_) => true,
        BindingAction::MoveWorkspace(_) => true,
        BindingAction::StackMove(_) => true,
        BindingAction::ToggleFloating => true,
        BindingAction::ToggleFullscreen => true,
        _ => false,
    }
}


/// The position of the first key binding that fires for the sanitized mask
/// and key, or the table's length when none does.
pub open spec fn first_key_match(s: Seq<KeyBinding>, m: u32, key: u32) -> int
    decreases s.len(),
{
    if s.len() == 0 {
        0
    } else if key_binding_matches(&s[0], m, key) {
        0
    } else {
        1 + first_key_match(s.drop_first(), m, key)
    }
}

/// Characterization of `first_key_match`.
pub proof fn lemma_first_key_match(s: Seq<KeyBinding>, m: u32, key: u32)
    ensures
        0 <= first_key_match(s, m, key) <= s.len(),
        first_key_match(s, m, key) < s.len() ==> key_binding_matches(
            &s[first_key_match(s, m, key)],
            m,
            key,
        ),
        forall|j: int| 0 <= j < first_key_match(s, m, key) ==> !key_binding_matches(&s[j], m, key),
        first_key_match(s, m, key) == s.len() ==> forall|j: int|
            0 <= j < s.len() ==> !key_binding_matches(&s[j], m, key),
    decreases s.len(),
{
    if s.len() == 0 {
    } else if key_binding_matches(&s[0], m, key) {
    } else {
        lemma_first_key_match(s.drop_first(), m, key);
        assert forall|j: int| 0 <= j < first_key_match(s, m, key) implies !key_binding_matches(
            &s[j],
            m,
            key,
        ) by {
            if j > 0 {
                assert(s[j] == s.drop_first()[j - 1]);
            }
        }
        if first_key_match(s, m, key) == s.len() {
            assert forall|j: int| 0 <= j < s.len() implies !key_binding_matches(&s[j], m, key) by {
                if j > 0 {
                    assert(s[j] == s.drop_first()[j - 1]);
                }
            }
        }
    }
}

/// The position of the first pointer binding that fires for the sanitized
/// mask, button and target class, or the table's length when none does.
pub open spec fn first_button_match(
    s: Seq<ButtonBinding>,
    m: u32,
    button: u32,
    target: ButtonTarget,
) -> int
    decreases s.len(),
{
    if s.len() == 0 {
        0
    } else if button_binding_matches(&s[0], m, button, target) {
        0
    } else {
        1 + first_button_match(s.drop_first(), m, button, target)
    }
}

/// Characterization of `first_button_match`.
pub proof fn lemma_first_button_match(s: Seq<ButtonBinding>, m: u32, button: u32, target: ButtonTarget)
    ensures
        0 <= first_button_match(s, m, button, target) <= s.len(),
        first_button_match(s, m, button, target) < s.len() ==> button_binding_matches(
            &s[first_button_match(s, m, button, target)],
            m,
            button,
            target,
        ),
        forall|j: int|
            0 <= j < first_button_match(s, m, button, target) ==> !button_binding_matches(
                &s[j],
                m,
                button,
                target,
            ),
        first_button_match(s, m, button, target) == s.len() ==> forall|j: int|
            0 <= j < s.len() ==> !button_binding_matches(&s[j], m, button, target),
    decreases s.len(),
{
    if s.len() == 0 {
    } else if button_binding_matches(&s[0], m, button, target) {
    } else {
        lemma_first_button_match(s.drop_first(), m, button, target);
        assert forall|j: int|
            0 <= j < first_button_match(s, m, button, target) implies !button_binding_matches(
            &s[j],
            m,
            button,
            target,
        ) by {
            if j > 0 {
                assert(s[j] == s.drop_first()[j - 1]);
            }
        }
        if first_button_match(s, m, button, target) == s.len() {
            assert forall|j: int|
                0 <= j < s.len() implies !button_binding_matches(&s[j], m, button, target) by {
                if j > 0 {
                    assert(s[j] == s.drop_first()[j - 1]);
                }
            }
        }
    }
}

} // verus!
