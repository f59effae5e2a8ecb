//! The switch of the on-screen performance overlay.

use vstd::prelude::*;

verus! {

/// The keys that the overlay tells apart.
#[derive(Clone, Copy, PartialEq, Eq, Structural, Debug)]
pub enum DebugKey {
    /// The key that shows and hides the overlay.
    F3,
    /// Any other key, or a key without a code.
    Other,
}

/// Whether a key went down or came up.
#[derive(Clone, Copy, PartialEq, Eq, Structural, Debug)]
pub enum ElementState {
    Pressed,
    Released,
}

/// One keyboard event.
#[derive(Clone, Copy, PartialEq, Eq, Structural, Debug)]
pub struct KeyboardInput {
    pub key_code: DebugKey,
    pub state: ElementState,
}

impl KeyboardInput {
    /// An event flips the overlay when it is the F3 key going down.
    pub open spec fn flips(self) -> bool {
        self.key_code == DebugKey::F3 && self.state == ElementState::Pressed
    }
}

/// Whether the overlay is shown after `inputs`, when `shown` says whether it
/// was shown before them: every flipping event inverts it.
pub open spec fn shown_after(shown: bool, inputs: Seq<KeyboardInput>) -> bool
    decreases inputs.len(),
{
    if inputs.len() == 0 {
        shown
    } else {
        let before = shown_after(shown, inputs.drop_last());
        if inputs.last().flips() {
            !before
        } else {
            before
        }
    }
}

/// Whether the overlay is shown.
#[derive(Clone, Copy, PartialEq, Eq, Structural, Debug)]
pub struct DebugUIState {
    pub display_debug_info: bool,
}

impl Default for DebugUIState {
    fn default() -> (state: Self)
        ensures
            !state.display_debug_info,
    {
        DebugUIState { display_debug_info: false }
    }
}

impl DebugUIState {
    /// Whether the overlay is to be drawn this frame.
    pub fn display_debug_ui_criteria(&self) -> (run: bool)
        ensures
            run == self.display_debug_info,
    {
        self.display_debug_info
    }

    /// Takes the keyboard events of one frame: each F3 key press shows the
    /// overlay if it was hidden and hides it if it was shown.
    pub fn toggle_debug_ui_displays(&mut self, inputs: &Vec<KeyboardInput>)
        ensures
            final(self).display_debug_info == shown_after(
                old(self).display_debug_info,
                inputs@,
            ),
    {
        let mut i: usize = 0;
        while i < inputs.len()
            invariant
                i <= inputs@.len(),
                self.display_debug_info == shown_after(
                    old(self).display_debug_info,
                    inputs@.take(i as int),
                ),
            decreases inputs@.len() - i,
        {
            let input = inputs[i];
            proof {
                assert(inputs@.take(i + 1).drop_last() =~= inputs@.take(i as int));
            }
            match (input.key_code, input.state) {
                (DebugKey::F3, ElementState::Pressed) => {
                    self.display_debug_info = !self.display_debug_info;
                },
                _ => {},
            }
            i = i + 1;
        }
        proof {
            assert(inputs@.take(inputs@.len() as int) =~= inputs@);
        }
    }
}

/// The performance overlay, hidden until F3 is pressed.
#[derive(Clone, Copy, Debug)]
pub struct DebugUIPlugin;

impl DebugUIPlugin {
    /// The state that the overlay starts in: hidden.
    pub fn build(&self) -> (state: DebugUIState)
        ensures
            !state.display_debug_info,
    {
        DebugUIState::default()
    }
}

} // verus!
