use vstd::prelude::*;

pub mod shop;
pub mod main_menu;
pub mod hero_editor;
pub mod shop_actions;

verus! {

/// The hero editor screen.
#[derive(Debug, Clone, Copy, PartialEq, Eq, Structural)]
pub struct HeroEditorPlugin;

/// The main menu screen.
#[derive(Debug, Clone, Copy, PartialEq, Eq, Structural)]
pub struct MainMenuPlugin;

/// The screen that tears the game down and returns to the main menu.
#[derive(Debug, Clone, Copy, PartialEq, Eq, Structural)]
pub struct RestartPlugin;

} // verus!
