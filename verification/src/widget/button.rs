use vstd::prelude::*;

verus! {

/// the look of a button for each of its displayed states
#[derive(Debug, Clone, Copy, PartialEq, Eq, Structural)]
pub enum ButtonTextureVariant {
    Idle,
    Focused,
    FocusedPressed,
}

impl ButtonTextureVariant {
    /// the variant that a button is drawn with: `focused` when it is the focus
    /// or is hovered, and `pressed` while it is held down
    pub open spec fn select_spec(focused: bool, pressed: bool) -> Self {
        if focused {
            if pressed {
                ButtonTextureVariant::FocusedPressed
            } else {
                ButtonTextureVariant::Focused
            }
        } else {
            ButtonTextureVariant::Idle
        }
    }

    pub fn select(focused: bool, pressed: bool) -> (r: Self)
        ensures
            r == Self::select_spec(focused, pressed),
    {
        if focused {
            if pressed {
                ButtonTextureVariant::FocusedPressed
            } else {
                ButtonTextureVariant::Focused
            }
        } else {
            ButtonTextureVariant::Idle
        }
    }

    /// the color of the outline of a button, as red, green, blue
    pub open spec fn outline_color_spec(self) -> (u8, u8, u8) {
        match self {
            ButtonTextureVariant::Idle => (50, 50, 50),
            ButtonTextureVariant::Focused => (118, 73, 206),
            ButtonTextureVariant::FocusedPressed => (200, 200, 200),
        }
    }

    pub fn outline_color(&self) -> (r: (u8, u8, u8))
        ensures
            r == self.outline_color_spec(),
    {
        match self {
            ButtonTextureVariant::Idle => (50, 50, 50),
            ButtonTextureVariant::Focused => (118, 73, 206),
            ButtonTextureVariant::FocusedPressed => (200, 200, 200),
        }
    }
}

/// Law: the look a button is drawn with shows exactly its focus (or hover):
/// it is highlighted, pressed or not, exactly when focused, and otherwise
/// idle, with the dim outline, whether or not it is pressed; it shows pressed
/// exactly when it is focused and pressed.
pub proof fn lemma_button_select_shows_focus(focused: bool, pressed: bool)
    ensures
        (ButtonTextureVariant::select_spec(focused, pressed) == ButtonTextureVariant::Focused
            || ButtonTextureVariant::select_spec(focused, pressed)
            == ButtonTextureVariant::FocusedPressed) <==> focused,
        !focused ==> ButtonTextureVariant::select_spec(focused, pressed) == ButtonTextureVariant::Idle,
        !focused ==> ButtonTextureVariant::select_spec(focused, pressed).outline_color_spec() == (
        50u8,
        50u8,
        50u8,
        ),
        (ButtonTextureVariant::select_spec(focused, pressed) == ButtonTextureVariant::FocusedPressed)
            <==> (focused && pressed),
{
}

/// Law: the outline of a button shows its state: dim (50, 50, 50) when idle,
/// purple (118, 73, 206) when focused, light (200, 200, 200) when pressed, and
/// no two states share a color.
pub proof fn lemma_button_outline_colors(v: ButtonTextureVariant)
    ensures
        v == ButtonTextureVariant::Idle <==> v.outline_color_spec() == (50u8, 50u8, 50u8),
        v == ButtonTextureVariant::Focused <==> v.outline_color_spec() == (118u8, 73u8, 206u8),
        v == ButtonTextureVariant::FocusedPressed <==> v.outline_color_spec() == (200u8, 200u8, 200u8),
{
}

} // verus!
