//! Style selectors of the launcher's front end. The front end decides what
//! each selector looks like; the crate fixes which selectors exist and which
//! one a widget starts with.
use vstd::prelude::*;

verus! {

/// The launcher's one theme.
#[derive(Debug, Clone, Copy)]
pub struct Theme;

impl Default for Theme {
    fn default() -> (r: Self)
        ensures
            r == Theme,
    {
        Theme
    }
}

/// Styles of a text.
#[derive(Debug, Clone, Copy)]
pub enum Text {
    Default,
    Peach,
}

impl Default for Text {
    fn default() -> (r: Self)
        ensures
            r == Text::Default,
    {
        Text::Default
    }
}

/// Styles of a container.
#[derive(Debug, Clone, Copy)]
pub enum Container {
    Default,
    BlackContainer,
}

impl Default for Container {
    fn default() -> (r: Self)
        ensures
            r == Container::Default,
    {
        Container::Default
    }
}

/// Styles of a button.
#[derive(Debug, Clone, Copy)]
pub enum Button {
    Primary,
    Secondary,
    Transparent,
}

impl Default for Button {
    fn default() -> (r: Self)
        ensures
            r == Button::Primary,
    {
        Button::Primary
    }
}

/// Styles of a text input.
pub enum TextInput {
    Default,
}

impl Default for TextInput {
    fn default() -> (r: Self)
        ensures
            r == TextInput::Default,
    {
        TextInput::Default
    }
}

/// Styles of a pick list.
#[derive(Clone)]
pub enum PickList {
    Default,
}

impl Default for PickList {
    fn default() -> (r: Self)
        ensures
            r == PickList::Default,
    {
        PickList::Default
    }
}

/// Styles of an SVG image.
pub enum Svg {
    Default,
}

impl Default for Svg {
    fn default() -> (r: Self)
        ensures
            r == Svg::Default,
    {
        Svg::Default
    }
}

/// Styles of a slider.
pub enum Slider {
    Default,
}

impl Default for Slider {
    fn default() -> (r: Self)
        ensures
            r == Slider::Default,
    {
        Slider::Default
    }
}

/// Styles of the menu that a pick list opens.
#[derive(Clone)]
pub enum Menu {
    Default,
}

impl Default for Menu {
    fn default() -> (r: Self)
        ensures
            r == Menu::Default,
    {
        Menu::Default
    }
}

/// The menu style that belongs to a pick list's style.
impl From<PickList> for Menu {
    fn from(_pick_list: PickList) -> (r: Self) {
        Menu::Default
    }
}

impl vstd::std_specs::convert::FromSpecImpl<PickList> for Menu {
    open spec fn obeys_from_spec() -> bool {
        true
    }

    open spec fn from_spec(_pick_list: PickList) -> Self {
        Menu::Default
    }
}

/// Styles of a scrollable.
pub enum Scrollable {
    Default,
}

impl Default for Scrollable {
    fn default() -> (r: Self)
        ensures
            r == Scrollable::Default,
    {
        Scrollable::Default
    }
}

/// Styles of a toggler.
pub enum Toggler {
    Default,
}

impl Default for Toggler {
    fn default() -> (r: Self)
        ensures
            r == Toggler::Default,
    {
        Toggler::Default
    }
}

} // verus!
