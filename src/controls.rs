//! Keyboard state and the decisions the frame loop takes from it: which
//! control mode is active and which parameter change or diagnostic the held
//! keys ask for. Carrying the change out is left to the caller.
use vstd::prelude::*;

verus! {

/// The keys the controls read; any other key is `Other` with its code.
#[derive(Clone, Copy, Debug, PartialEq, Eq, Structural)]
pub enum Key {
    KeyP,
    Digit1,
    Digit2,
    Digit3,
    KeyS,
    KeyA,
    KeyT,
    KeyV,
    KeyR,
    KeyX,
    KeyZ,
    ArrowUp,
    ArrowDown,
    ArrowLeft,
    ArrowRight,
    ShiftLeft,
    Other(u32),
}

/// Which group of controls the held keys drive.
#[derive(Clone, Copy, Debug, PartialEq, Eq, Structural)]
pub enum KeyboardMode {
    Debug,
    View,
    Terrain,
    Print,
}

/// Which way a view parameter moves.
#[derive(Clone, Copy, Debug, PartialEq, Eq, Structural)]
pub enum Step {
    Decrease,
    Increase,
}

/// A change of the view parameters.
#[derive(Clone, Copy, Debug, PartialEq, Eq, Structural)]
pub enum ViewAction {
    /// Shift the view along x, by a step scaled down by the zoom.
    ShiftX(Step),
    /// Shift the view along y, by a step scaled down by the zoom.
    ShiftY(Step),
    /// Rotate about x; a decrease stops at zero.
    RotateX(Step),
    /// Rotate about y; a decrease stops at zero.
    RotateY(Step),
    /// Change the zoom by a tenth of itself.
    Zoom(Step),
}

/// A diagnostic read of a debug buffer.
#[derive(Clone, Copy, Debug, PartialEq, Eq, Structural)]
pub enum DebugAction {
    PrintGeneric,
    PrintArray,
}

/// A parameter block to print.
#[derive(Clone, Copy, Debug, PartialEq, Eq, Structural)]
pub enum PrintAction {
    TerrainParams,
    ViewParams,
    RayParams,
}

/// What one update of the controls asks the caller to do.
#[derive(Clone, Copy, Debug, PartialEq, Eq, Structural)]
pub enum ControlAction {
    Nothing,
    View(ViewAction),
    Debug(DebugAction),
    Print(PrintAction),
}

/// The keys held down and the active mode.
#[derive(Debug)]
pub struct KeyboardState {
    keys: Vec<Key>,
    mode: KeyboardMode,
}

impl KeyboardState {
    /// Whether `k` is held down.
    pub closed spec fn held(&self, k: Key) -> bool {
        self.keys@.contains(k)
    }

    /// The active mode.
    pub closed spec fn mode_spec(&self) -> KeyboardMode {
        self.mode
    }

    /// No key held, in print mode.
    pub fn new() -> (s: KeyboardState)
        ensures
            forall|k: Key| !s.held(k),
            s.mode_spec() == KeyboardMode::Print,
    {
        KeyboardState { keys: Vec::new(), mode: KeyboardMode::Print }
    }

    pub fn key_pressed(&self, key: Key) -> (r: bool)
        ensures
            r == self.held(key),
    {
        let mut i: usize = 0;
        while i < self.keys.len()
            invariant
                i <= self.keys@.len(),
                forall|j: int| 0 <= j < i ==> self.keys@[j] != key,
            decreases self.keys@.len() - i,
        {
            if self.keys[i] == key {
                return true;
            }
            i += 1;
        }
        false
    }

    /// Records a key going down (`pressed`) or coming up.
    pub fn handle_keyboard_input(&mut self, key: Key, pressed: bool)
        ensures
            final(self).mode_spec() == old(self).mode_spec(),
            forall|k: Key|
                #[trigger] final(self).held(k) == if k == key {
                    pressed
                } else {
                    old(self).held(k)
                },
    {
        if pressed {
            if !self.key_pressed(key) {
                self.keys.push(key);
                assert(forall|k: Key| #[trigger] self.keys@.contains(k) == (k == key || old(self).keys@.contains(k))) by {
                    assert forall|k: Key| #[trigger] self.keys@.contains(k) implies (k == key || old(self).keys@.contains(k)) by {
                        let j = choose|j: int| 0 <= j < self.keys@.len() && self.keys@[j] == k;
                        if j < old(self).keys@.len() {
                            assert(old(self).keys@[j] == k);
                        }
                    }
                    assert forall|k: Key| (k == key || old(self).keys@.contains(k)) implies #[trigger] self.keys@.contains(k) by {
                        if k == key {
                            assert(self.keys@[self.keys@.len() - 1] == k);
                        } else {
                            let j = choose|j: int| 0 <= j < old(self).keys@.len() && old(self).keys@[j] == k;
                            assert(self.keys@[j] == k);
                        }
                    }
                }
            }
        } else {
            let mut kept: Vec<Key> = Vec::new();
            let mut i: usize = 0;
            while i < self.keys.len()
                invariant
                    i <= self.keys@.len(),
                    forall|k: Key|
                        #[trigger] kept@.contains(k) == (k != key && self.keys@.subrange(
                            0,
                            i as int,
                        ).contains(k)),
                decreases self.keys@.len() - i,
            {
                let k = self.keys[i];
                let ghost pre = self.keys@.subrange(0, i as int);
                let ghost kept_before = kept@;
                assert(self.keys@.subrange(0, i + 1) =~= pre.push(k));
                if k != key {
                    kept.push(k);
                }
                assert forall|c: Key| #[trigger] kept@.contains(c) == (c != key && pre.push(k).contains(c)) by {
                    if pre.push(k).contains(c) {
                        let j = choose|j: int| 0 <= j < pre.push(k).len() && pre.push(k)[j] == c;
                        if j < pre.len() {
                            assert(pre[j] == c);
                        }
                    }
                    if pre.contains(c) {
                        let j = choose|j: int| 0 <= j < pre.len() && pre[j] == c;
                        assert(pre.push(k)[j] == c);
                    }
                    assert(pre.push(k)[pre.len() as int] == k);
                    if kept@.contains(c) {
                        let j = choose|j: int| 0 <= j < kept@.len() && kept@[j] == c;
                        if j < kept_before.len() {
                            assert(kept_before[j] == c);
                        }
                    }
                    if kept_before.contains(c) {
                        let j = choose|j: int| 0 <= j < kept_before.len() && kept_before[j] == c;
                        assert(kept@[j] == c);
                    }
                    if k != key {
                        assert(kept@[kept@.len() - 1] == k);
                    }
                }
                i += 1;
            }
            assert(self.keys@.subrange(0, self.keys@.len() as int) =~= self.keys@);
            self.keys = kept;
        }
    }

    pub fn clear_keys(&mut self)
        ensures
            final(self).mode_spec() == old(self).mode_spec(),
            forall|k: Key| !final(self).held(k),
    {
        self.keys.clear();
    }

    /// The held keys.
    pub fn get_keys(&self) -> (keys: &Vec<Key>)
        ensures
            forall|k: Key| keys@.contains(k) == self.held(k),
    {
        &self.keys
    }

    pub fn get_mode(&self) -> (m: KeyboardMode)
        ensures
            m == self.mode_spec(),
    {
        self.mode
    }

    pub fn set_mode(&mut self, new_mode: KeyboardMode)
        ensures
            final(self).mode_spec() == new_mode,
            forall|k: Key| final(self).held(k) == old(self).held(k),
    {
        self.mode = new_mode;
    }
}

/// The mode after the mode keys are read: `P` debug, `1` terrain, `2` view,
/// `3` print, the first held in that order; with none held, unchanged.
pub open spec fn next_mode(s: &KeyboardState) -> KeyboardMode {
    if s.held(Key::KeyP) {
        KeyboardMode::Debug
    } else if s.held(Key::Digit1) {
        KeyboardMode::Terrain
    } else if s.held(Key::Digit2) {
        KeyboardMode::View
    } else if s.held(Key::Digit3) {
        KeyboardMode::Print
    } else {
        s.mode_spec()
    }
}

/// The view change the held keys ask for: the arrows shift the view, or
/// rotate it with left shift held (left and up decrease, right and down
/// increase; left before right before up before down); otherwise `X`
/// decreases the zoom and `Z` increases it.
pub open spec fn view_action_spec(s: &KeyboardState) -> Option<ViewAction> {
    let shift = s.held(Key::ShiftLeft);
    if s.held(Key::ArrowLeft) {
        Some(if shift { ViewAction::RotateX(Step::Decrease) } else { ViewAction::ShiftX(Step::Decrease) })
    } else if s.held(Key::ArrowRight) {
        Some(if shift { ViewAction::RotateX(Step::Increase) } else { ViewAction::ShiftX(Step::Increase) })
    } else if s.held(Key::ArrowUp) {
        Some(if shift { ViewAction::RotateY(Step::Decrease) } else { ViewAction::ShiftY(Step::Decrease) })
    } else if s.held(Key::ArrowDown) {
        Some(if shift { ViewAction::RotateY(Step::Increase) } else { ViewAction::ShiftY(Step::Increase) })
    } else if s.held(Key::KeyX) {
        Some(ViewAction::Zoom(Step::Decrease))
    } else if s.held(Key::KeyZ) {
        Some(ViewAction::Zoom(Step::Increase))
    } else {
        None
    }
}

/// The debug read the held keys ask for: `S` the generic buffer, else `A`
/// the array buffer.
pub open spec fn debug_action_spec(s: &KeyboardState) -> Option<DebugAction> {
    if s.held(Key::KeyS) {
        Some(DebugAction::PrintGeneric)
    } else if s.held(Key::KeyA) {
        Some(DebugAction::PrintArray)
    } else {
        None
    }
}

/// The parameter block the held keys ask to print: `T` terrain, else `V`
/// view, else `R` ray parameters.
pub open spec fn print_action_spec(s: &KeyboardState) -> Option<PrintAction> {
    if s.held(Key::KeyT) {
        Some(PrintAction::TerrainParams)
    } else if s.held(Key::KeyV) {
        Some(PrintAction::ViewParams)
    } else if s.held(Key::KeyR) {
        Some(PrintAction::RayParams)
    } else {
        None
    }
}

/// The mode after one update and the action it asks for. The mode keys are
/// read first; then the active mode's keys. A debug read switches to
/// terrain mode after it.
pub open spec fn control_outcome(s: &KeyboardState) -> (KeyboardMode, ControlAction) {
    let mode = next_mode(s);
    match mode {
        KeyboardMode::Debug => match debug_action_spec(s) {
            Some(d) => (KeyboardMode::Terrain, ControlAction::Debug(d)),
            None => (mode, ControlAction::Nothing),
        },
        KeyboardMode::View => match view_action_spec(s) {
            Some(v) => (mode, ControlAction::View(v)),
            None => (mode, ControlAction::Nothing),
        },
        KeyboardMode::Terrain => (mode, ControlAction::Nothing),
        KeyboardMode::Print => match print_action_spec(s) {
            Some(p) => (mode, ControlAction::Print(p)),
            None => (mode, ControlAction::Nothing),
        },
    }
}

impl KeyboardState {
    /// Reads the held keys once: selects the mode and says what the active
    /// mode's keys ask for.
    pub fn update_controls(&mut self) -> (a: ControlAction)
        ensures
            (final(self).mode_spec(), a) == control_outcome(old(self)),
            forall|k: Key| final(self).held(k) == old(self).held(k),
    {
        if self.key_pressed(Key::KeyP) {
            self.set_mode(KeyboardMode::Debug);
        } else if self.key_pressed(Key::Digit1) {
            self.set_mode(KeyboardMode::Terrain);
        } else if self.key_pressed(Key::Digit2) {
            self.set_mode(KeyboardMode::View);
        } else if self.key_pressed(Key::Digit3) {
            self.set_mode(KeyboardMode::Print);
        }
        match self.get_mode() {
            KeyboardMode::Debug => {
                let d = self.debug_controls();
                match d {
                    Some(d) => {
                        self.set_mode(KeyboardMode::Terrain);
                        ControlAction::Debug(d)
                    },
                    None => ControlAction::Nothing,
                }
            },
            KeyboardMode::View => match self.view_controls() {
                Some(v) => ControlAction::View(v),
                None => ControlAction::Nothing,
            },
            KeyboardMode::Terrain => ControlAction::Nothing,
            KeyboardMode::Print => match self.print_controls() {
                Some(p) => ControlAction::Print(p),
                None => ControlAction::Nothing,
            },
        }
    }

    pub fn debug_controls(&self) -> (a: Option<DebugAction>)
        ensures
            a == debug_action_spec(self),
    {
        if self.key_pressed(Key::KeyS) {
            Some(DebugAction::PrintGeneric)
        } else if self.key_pressed(Key::KeyA) {
            Some(DebugAction::PrintArray)
        } else {
            None
        }
    }

    pub fn view_controls(&self) -> (a: Option<ViewAction>)
        ensures
            a == view_action_spec(self),
    {
        let shift = self.key_pressed(Key::ShiftLeft);
        if self.key_pressed(Key::ArrowLeft) {
            Some(if shift { ViewAction::RotateX(Step::Decrease) } else { ViewAction::ShiftX(Step::Decrease) })
        } else if self.key_pressed(Key::ArrowRight) {
            Some(if shift { ViewAction::RotateX(Step::Increase) } else { ViewAction::ShiftX(Step::Increase) })
        } else if self.key_pressed(Key::ArrowUp) {
            Some(if shift { ViewAction::RotateY(Step::Decrease) } else { ViewAction::ShiftY(Step::Decrease) })
        } else if self.key_pressed(Key::ArrowDown) {
            Some(if shift { ViewAction::RotateY(Step::Increase) } else { ViewAction::ShiftY(Step::Increase) })
        } else if self.key_pressed(Key::KeyX) {
            Some(ViewAction::Zoom(Step::Decrease))
        } else if self.key_pressed(Key::KeyZ) {
            Some(ViewAction::Zoom(Step::Increase))
        } else {
            None
        }
    }

    pub fn print_controls(&self) -> (a: Option<PrintAction>)
        ensures
            a == print_action_spec(self),
    {
        if self.key_pressed(Key::KeyT) {
            Some(PrintAction::TerrainParams)
        } else if self.key_pressed(Key::KeyV) {
            Some(PrintAction::ViewParams)
        } else if self.key_pressed(Key::KeyR) {
            Some(PrintAction::RayParams)
        } else {
            None
        }
    }
}

} // verus!
