//! The title screen.

use vstd::prelude::*;
use vstd::string::*;
use crate::lobby::{GameState, NetMode};
use crate::page::{line, mark, styled, Page, Shown, Style, Tone, Widget};
use crate::reading::{is_space, trim, trimmed, trimming_takes_only_space};

verus! {

/// What the title screen remembers.
#[derive(Debug)]
pub struct MainMenuState {
    pub player_name: String,
}

impl MainMenuState {
    /// Starts with the name of the machine's user, where it is known.
    pub fn new(user: Option<String>, username: Option<String>) -> (s: MainMenuState)
        ensures
            s.player_name@ == (match (user, username) {
                (Some(u), _) => u@,
                (None, Some(u)) => u@,
                (None, None) => "Player"@,
            }),
    {
        let player_name = match user {
            Some(u) => u,
            None => match username {
                Some(u) => u,
                None => "Player".to_owned(),
            },
        };
        MainMenuState { player_name }
    }
}

/// What the title screen asks for.
#[derive(Clone, Copy, Debug, PartialEq, Eq, Structural)]
pub enum MenuAction {
    EditName,
    Singleplayer,
    Host,
    Join,
}

/// The rows of the title screen.
pub type MenuRows = Seq<Shown<MenuAction>>;

/// What follows from a press: the screen to go to, and the name of the one player who starts
/// there, if any.
#[derive(Debug)]
pub struct MenuOutcome {
    pub next: GameState,
    pub player: Option<String>,
}

/// The screen with which the game starts, where it is not the title screen: whoever started it
/// with a connection goes to the lobby.
pub fn main_menu_boot_route_system(mode: NetMode) -> (r: Option<GameState>)
    ensures
        r == (if mode == NetMode::Local {
            None
        } else {
            Some(GameState::MultiplayerLobby)
        }),
{
    match mode {
        NetMode::Local => None,
        _ => Some(GameState::MultiplayerLobby),
    }
}

/// A name is more than white space.
pub open spec fn named(name: Seq<char>) -> bool {
    trimmed(name).len() > 0
}

/// The title screen. Without a name nothing can be pressed.
pub open spec fn menu_rows(name: Seq<char>) -> MenuRows {
    let p = Seq::<Shown<MenuAction>>::empty().push(
        styled(Tone::Plain, Style::Points(48), "CivGame"@),
    ).push(
        styled(Tone::Weak, Style::Italic, "Dwarf-Fortress-style civilization simulation"@),
    ).push(mark(Widget::Begin)).push(line("Name:"@)).push(
        (Widget::Edit, name, Some(MenuAction::EditName)),
    ).push(mark(Widget::End));
    let p = if named(name) {
        p
    } else {
        p.push(styled(Tone::Rgb(220, 100, 100), Style::Normal, "Pick a name to continue."@))
    };
    p.push(
        (
            Widget::Switch(Tone::Plain, named(name)),
            "Singleplayer"@,
            Some(MenuAction::Singleplayer),
        ),
    ).push(
        (Widget::Switch(Tone::Plain, named(name)), "Host LAN Game"@, Some(MenuAction::Host)),
    ).push(
        (Widget::Switch(Tone::Plain, named(name)), "Join LAN Game"@, Some(MenuAction::Join)),
    ).push(
        styled(Tone::Weak, Style::Small, "LAN multiplayer · re-launch model (v1)"@),
    )
}

/// The title screen.
pub fn main_menu_system(s: &MainMenuState) -> (page: Page<MenuAction>)
    ensures
        page.shown() == menu_rows(s.player_name@),
{
    let mut page: Page<MenuAction> = Page::new();
    page.note_in(Tone::Plain, Style::Points(48), "CivGame");
    page.note_in(Tone::Weak, Style::Italic, "Dwarf-Fortress-style civilization simulation");
    page.place(Widget::Begin);
    page.note("Name:");
    page.offer(Widget::Edit, s.player_name.as_str(), MenuAction::EditName);
    page.place(Widget::End);
    let name = trim(s.player_name.as_str());
    let ok: bool = name.as_str().unicode_len() > 0;
    if !ok {
        page.note_in(Tone::Rgb(220, 100, 100), Style::Normal, "Pick a name to continue.");
    }
    page.offer(Widget::Switch(Tone::Plain, ok), "Singleplayer", MenuAction::Singleplayer);
    page.offer(Widget::Switch(Tone::Plain, ok), "Host LAN Game", MenuAction::Host);
    page.offer(Widget::Switch(Tone::Plain, ok), "Join LAN Game", MenuAction::Join);
    page.note_in(Tone::Weak, Style::Small, "LAN multiplayer · re-launch model (v1)");
    page
}

/// What follows from a press: nothing without a name. Alone, one goes to pick a start; a host
/// and a guest go to the lobby, and a guest starts nothing yet.
pub fn menu_pressed(s: &MainMenuState, a: MenuAction) -> (r: Option<MenuOutcome>)
    ensures
        match r {
            Some(o) => {
                &&& named(s.player_name@)
                &&& a != MenuAction::EditName
                &&& o.next == (if a == MenuAction::Singleplayer {
                    GameState::SpawnSelect
                } else {
                    GameState::MultiplayerLobby
                })
                &&& (o.player is None <==> a == MenuAction::Join)
                &&& (o.player matches Some(name) ==> name@ == trimmed(s.player_name@))
            },
            None => !named(s.player_name@) || a == MenuAction::EditName,
        },
{
    let name = trim(s.player_name.as_str());
    if name.as_str().unicode_len() == 0 {
        return None;
    }
    match a {
        MenuAction::EditName => None,
        MenuAction::Singleplayer => Some(
            MenuOutcome { next: GameState::SpawnSelect, player: Some(name) },
        ),
        MenuAction::Host => Some(
            MenuOutcome { next: GameState::MultiplayerLobby, player: Some(name) },
        ),
        MenuAction::Join => Some(MenuOutcome { next: GameState::MultiplayerLobby, player: None }),
    }
}

/// A name is one as soon as it holds anything but white space; without one no game can be begun, and
/// the menu says so.
pub proof fn the_nameless_wait(name: Seq<char>, i: int)
    ensures
        0 <= i < name.len() && !is_space(name[i]) ==> named(name),
        (forall|k: int| 0 <= k < name.len() ==> is_space(#[trigger] name[k])) ==> !named(name),
        named(name) ==> menu_rows(name).len() == 10 && menu_rows(name)[6].0 == Widget::Switch(
            Tone::Plain,
            true,
        ) && menu_rows(name)[6].2 == Some(MenuAction::Singleplayer) && menu_rows(name)[7].2 == Some(
            MenuAction::Host,
        ) && menu_rows(name)[8].2 == Some(MenuAction::Join),
        !named(name) ==> menu_rows(name).len() == 11 && menu_rows(name)[6].1
            == "Pick a name to continue."@ && menu_rows(name)[7].0 == Widget::Switch(
            Tone::Plain,
            false,
        ) && menu_rows(name)[8].0 == Widget::Switch(Tone::Plain, false) && menu_rows(name)[9].0
            == Widget::Switch(Tone::Plain, false),
{
    let cut = trimming_takes_only_space(name);
    if 0 <= i < name.len() && !is_space(name[i]) {
        assert(cut.0 <= i < cut.1);
    }
    if (forall|k: int| 0 <= k < name.len() ==> is_space(#[trigger] name[k])) && named(name) {
        assert(trimmed(name)[0] == name[cut.0]);
    }
}

} // verus!
