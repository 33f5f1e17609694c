//! The two-screen mode machine: a main menu and the running simulation.
//!
//! The decision of what a button press does is plain state logic, kept here
//! as a pure transition function; performing the effect (opening a window,
//! leaving the process) is the caller's business.

use vstd::prelude::*;

verus! {

/// Which screen the application is on.
#[derive(Clone, Copy, PartialEq, Eq, Structural, Debug)]
pub enum AppState {
    MainMenu,
    Simulate,
}

/// A menu button.
#[derive(Clone, Copy, PartialEq, Eq, Structural, Debug)]
pub enum MenuAction {
    Play,
    LoadFile,
    SelectFolder,
    Quit,
}

/// What the caller must do after a transition.
#[derive(Clone, Copy, PartialEq, Eq, Structural, Debug)]
pub enum MenuEffect {
    /// Nothing to do.
    Stay,
    /// Tear down the menu scene and open the simulation view.
    OpenSimulation,
    /// Leave the application.
    Exit,
}

/// The transition table. Buttons exist only on the menu screen, so in the
/// simulation state every action is inert. From the menu, play starts the
/// simulation, quit leaves, and the two file pickers are not wired to
/// anything yet.
pub open spec fn spec_menu_transition(state: AppState, action: MenuAction) -> (
    AppState,
    MenuEffect,
) {
    match state {
        AppState::Simulate => (AppState::Simulate, MenuEffect::Stay),
        AppState::MainMenu => match action {
            MenuAction::Play => (AppState::Simulate, MenuEffect::OpenSimulation),
            MenuAction::LoadFile => (AppState::MainMenu, MenuEffect::Stay),
            MenuAction::SelectFolder => (AppState::MainMenu, MenuEffect::Stay),
            MenuAction::Quit => (AppState::MainMenu, MenuEffect::Exit),
        },
    }
}

/// Decide what a pressed button does in the given state.
pub fn handle_menu_action(state: AppState, action: MenuAction) -> (r: (AppState, MenuEffect))
    ensures
        r == spec_menu_transition(state, action),
{
    match state {
        AppState::Simulate => (AppState::Simulate, MenuEffect::Stay),
        AppState::MainMenu => match action {
            MenuAction::Play => (AppState::Simulate, MenuEffect::OpenSimulation),
            MenuAction::LoadFile => (AppState::MainMenu, MenuEffect::Stay),
            MenuAction::SelectFolder => (AppState::MainMenu, MenuEffect::Stay),
            MenuAction::Quit => (AppState::MainMenu, MenuEffect::Exit),
        },
    }
}

} // verus!
