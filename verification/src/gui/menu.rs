use vstd::prelude::*;
use crate::blocks::worldgen::str_eq;

verus! {

/// Which menu screen is shown.
#[derive(Debug, Clone, Copy, PartialEq, Eq, Structural)]
pub enum MenuState {
    Hidden,
    Main,
    Settings,
}

/// What the game should do after a menu click.
#[derive(Debug, Clone, Copy, PartialEq, Eq, Structural)]
pub enum MenuAction {
    NoAction,
    Resume,
    Settings,
    BackToMain,
    SaveSettings,
    QuitToDesktop,
}

/// Kind of menu element, as the menu shader numbers them.
#[derive(Debug, Clone, Copy, PartialEq, Eq, Structural)]
pub enum ElementType {
    Button,
    ButtonHover,
    ButtonPrimary,
    ButtonDanger,
    Panel,
    Slider,
    Select,
    Title,
    Overlay,
}

/// The number the menu shader uses for an element kind.
pub open spec fn spec_shader_index(t: ElementType) -> u32 {
    match t {
        ElementType::Button => 0u32,
        ElementType::ButtonHover => 1,
        ElementType::ButtonPrimary => 2,
        ElementType::ButtonDanger => 3,
        ElementType::Panel => 4,
        ElementType::Slider => 5,
        ElementType::Select => 6,
        ElementType::Title => 7,
        ElementType::Overlay => 8,
    }
}

impl ElementType {
    /// The number the menu shader uses for this kind.
    pub fn shader_index(self) -> (r: u32)
        ensures
            r == spec_shader_index(self),
    {
        match self {
            ElementType::Button => 0,
            ElementType::ButtonHover => 1,
            ElementType::ButtonPrimary => 2,
            ElementType::ButtonDanger => 3,
            ElementType::Panel => 4,
            ElementType::Slider => 5,
            ElementType::Select => 6,
            ElementType::Title => 7,
            ElementType::Overlay => 8,
        }
    }
}

/// The shader number of a menu element: a hovered plain button shows as hovered, any other
/// element as its own kind.
pub fn element_state(element_type: ElementType, hover: bool) -> (r: u32)
    ensures
        r == if hover && element_type == ElementType::Button {
            1u32
        } else {
            spec_shader_index(element_type)
        },
{
    if hover && element_type == ElementType::Button {
        ElementType::ButtonHover.shader_index()
    } else {
        element_type.shader_index()
    }
}

/// Escape toggles the menu: hidden opens the main screen, any screen closes it.
pub open spec fn toggled(state: MenuState) -> MenuState {
    match state {
        MenuState::Hidden => MenuState::Main,
        _ => MenuState::Hidden,
    }
}

/// The screen after Escape on screen `state` (see `toggled`).
pub fn toggle_state(state: MenuState) -> (r: MenuState)
    ensures
        r == toggled(state),
{
    match state {
        MenuState::Hidden => MenuState::Main,
        _ => MenuState::Hidden,
    }
}

/// Screen and action after clicking the button `id` of the full menu on screen `state`: on the
/// main screen `resume` closes the menu, `settings` opens the settings and `quit` asks to quit;
/// on the settings screen `save` and `back` return to the main screen; anything else, or any
/// click while hidden, does nothing.
pub open spec fn menu_click(state: MenuState, id: Seq<char>) -> (MenuState, MenuAction) {
    match state {
        MenuState::Main => if id == "resume"@ {
            (MenuState::Hidden, MenuAction::Resume)
        } else if id == "settings"@ {
            (MenuState::Settings, MenuAction::Settings)
        } else if id == "quit"@ {
            (state, MenuAction::QuitToDesktop)
        } else {
            (state, MenuAction::NoAction)
        },
        MenuState::Settings => if id == "save"@ {
            (MenuState::Main, MenuAction::SaveSettings)
        } else if id == "back"@ {
            (MenuState::Main, MenuAction::BackToMain)
        } else {
            (state, MenuAction::NoAction)
        },
        MenuState::Hidden => (state, MenuAction::NoAction),
    }
}

/// Screen and action after clicking button `id` on screen `state` (see `menu_click`).
pub fn handle_menu_click(state: MenuState, id: &str) -> (r: (MenuState, MenuAction))
    ensures
        r == menu_click(state, id@),
{
    match state {
        MenuState::Main => {
            if str_eq(id, "resume") {
                (MenuState::Hidden, MenuAction::Resume)
            } else if str_eq(id, "settings") {
                (MenuState::Settings, MenuAction::Settings)
            } else if str_eq(id, "quit") {
                (state, MenuAction::QuitToDesktop)
            } else {
                (state, MenuAction::NoAction)
            }
        },
        MenuState::Settings => {
            if str_eq(id, "save") {
                (MenuState::Main, MenuAction::SaveSettings)
            } else if str_eq(id, "back") {
                (MenuState::Main, MenuAction::BackToMain)
            } else {
                (state, MenuAction::NoAction)
            }
        },
        MenuState::Hidden => (state, MenuAction::NoAction),
    }
}

/// The simple pause menu: its screen and the window size it is laid out for.
pub struct GameMenu {
    state: MenuState,
    width: u32,
    height: u32,
}

/// Screen and action after pressing button `id` of the simple menu on screen `state`:
/// while shown, `resume` closes it, `settings` opens the settings and `quit` asks to quit;
/// other buttons, or any press while hidden, do nothing.
pub open spec fn game_menu_press(state: MenuState, id: Seq<char>) -> (MenuState, MenuAction) {
    if state == MenuState::Hidden {
        (state, MenuAction::NoAction)
    } else if id == "resume"@ {
        (MenuState::Hidden, MenuAction::Resume)
    } else if id == "settings"@ {
        (MenuState::Settings, MenuAction::Settings)
    } else if id == "quit"@ {
        (state, MenuAction::QuitToDesktop)
    } else {
        (state, MenuAction::NoAction)
    }
}

impl GameMenu {
    /// The screen shown.
    pub closed spec fn state_view(&self) -> MenuState {
        self.state
    }

    /// Window width the menu is laid out for.
    pub closed spec fn width_view(&self) -> u32 {
        self.width
    }

    /// Window height the menu is laid out for.
    pub closed spec fn height_view(&self) -> u32 {
        self.height
    }

    /// A hidden menu for a window of the given size.
    pub fn new(width: u32, height: u32) -> (r: Self)
        ensures
            r.state_view() == MenuState::Hidden,
            r.width_view() == width,
            r.height_view() == height,
    {
        GameMenu { state: MenuState::Hidden, width, height }
    }

    /// Opens the main screen when hidden, closes the menu otherwise.
    pub fn toggle(&mut self)
        ensures
            final(self).state_view() == toggled(old(self).state_view()),
            final(self).width_view() == old(self).width_view(),
            final(self).height_view() == old(self).height_view(),
    {
        self.state = toggle_state(self.state);
    }

    /// Closes the menu.
    pub fn close(&mut self)
        ensures
            final(self).state_view() == MenuState::Hidden,
            final(self).width_view() == old(self).width_view(),
            final(self).height_view() == old(self).height_view(),
    {
        self.state = MenuState::Hidden;
    }

    /// Whether the menu is shown.
    pub fn is_visible(&self) -> (r: bool)
        ensures
            r == (self.state_view() != MenuState::Hidden),
    {
        self.state != MenuState::Hidden
    }

    /// The screen shown.
    pub fn state(&self) -> (r: MenuState)
        ensures
            r == self.state_view(),
    {
        self.state
    }

    /// Window width the menu is laid out for.
    pub fn width(&self) -> (r: u32)
        ensures
            r == self.width_view(),
    {
        self.width
    }

    /// Window height the menu is laid out for.
    pub fn height(&self) -> (r: u32)
        ensures
            r == self.height_view(),
    {
        self.height
    }

    /// Lays the menu out for a new window size.
    pub fn resize(&mut self, width: u32, height: u32)
        ensures
            final(self).state_view() == old(self).state_view(),
            final(self).width_view() == width,
            final(self).height_view() == height,
    {
        self.width = width;
        self.height = height;
    }

    /// Presses the button `id` (the one under the cursor) and returns what the game should do.
    pub fn press(&mut self, id: &str) -> (r: MenuAction)
        ensures
            (final(self).state_view(), r) == game_menu_press(old(self).state_view(), id@),
            final(self).width_view() == old(self).width_view(),
            final(self).height_view() == old(self).height_view(),
    {
        if self.state == MenuState::Hidden {
            return MenuAction::NoAction;
        }
        if str_eq(id, "resume") {
            self.close();
            MenuAction::Resume
        } else if str_eq(id, "settings") {
            self.state = MenuState::Settings;
            MenuAction::Settings
        } else if str_eq(id, "quit") {
            MenuAction::QuitToDesktop
        } else {
            MenuAction::NoAction
        }
    }
}

/// Law: toggling the menu twice from a hidden or main screen gives that screen back.
pub proof fn lemma_toggle_twice(state: MenuState)
    requires
        state != MenuState::Settings,
    ensures
        toggled(toggled(state)) == state,
{
}

/// Law: every click of the full menu either does nothing and keeps the screen, or its action
/// tells where the menu came from and went: resume, settings and quit come from the main screen
/// (to hidden, settings and main), save and back come from settings (to main); a click while
/// hidden does nothing.
pub proof fn lemma_menu_click_outcomes(state: MenuState, id: Seq<char>)
    ensures
        ({
            let (next, action) = menu_click(state, id);
            &&& action == MenuAction::NoAction ==> next == state
            &&& action == MenuAction::Resume ==> state == MenuState::Main && next == MenuState::Hidden
            &&& action == MenuAction::Settings ==> state == MenuState::Main && next == MenuState::Settings
            &&& action == MenuAction::QuitToDesktop ==> state == MenuState::Main && next == MenuState::Main
            &&& (action == MenuAction::SaveSettings || action == MenuAction::BackToMain) ==> state
                == MenuState::Settings && next == MenuState::Main
            &&& state == MenuState::Hidden ==> action == MenuAction::NoAction
        }),
{
}

} // verus!
