use siglauncher::theme::{
    Button, Container, Menu, PickList, Scrollable, Slider, Svg, Text, TextInput, Theme, Toggler,
};

#[test]
fn each_style_starts_with_its_default() {
    assert!(matches!(Theme::default(), Theme));
    assert!(matches!(Text::default(), Text::Default));
    assert!(matches!(Container::default(), Container::Default));
    assert!(matches!(Button::default(), Button::Primary));
    assert!(matches!(TextInput::default(), TextInput::Default));
    assert!(matches!(PickList::default(), PickList::Default));
    assert!(matches!(Svg::default(), Svg::Default));
    assert!(matches!(Slider::default(), Slider::Default));
    assert!(matches!(Menu::default(), Menu::Default));
    assert!(matches!(Scrollable::default(), Scrollable::Default));
    assert!(matches!(Toggler::default(), Toggler::Default));
}

#[test]
fn menu_follows_the_pick_list() {
    assert!(matches!(Menu::from(PickList::Default), Menu::Default));
}
