//! The lobby: who plays, where they start, and when the game begins.

use vstd::prelude::*;
use vstd::string::*;
use crate::page::{line, mark, styled, Page, Shown, Style, Tone, Widget};
use crate::reading::{pair_of, parse_megachunk, read_u64, u64_of};
use crate::rng::any_number;
use crate::seqs::{find, find_is_first, find_is_none};
use crate::text::{digits, numeral, same_text, Text};
use crate::vision::Era;

verus! {

/// How the game is connected.
#[derive(Clone, Copy, Debug, PartialEq, Eq, Structural)]
pub enum NetMode {
    Local,
    ListenServer,
    DedicatedServer,
    Client,
}

/// A screen of the game.
#[derive(Clone, Copy, Debug, PartialEq, Eq, Structural)]
pub enum GameState {
    MainMenu,
    SpawnSelect,
    MultiplayerLobby,
    Playing,
}

#[derive(Clone, Copy, Debug, PartialEq, Eq, Structural)]
pub enum EconomyPreset {
    Subsistence,
    Mixed,
    Market,
}

#[derive(Clone, Copy, Debug, PartialEq, Eq, Structural)]
pub enum StartSettlementMaturity {
    Founder,
    Established,
    Developed,
}

/// How the game is to start.
#[derive(Clone, Copy, Debug, PartialEq, Eq, Structural)]
pub struct GameStartOptions {
    pub era: Era,
    pub economy: EconomyPreset,
    pub maturity: StartSettlementMaturity,
}

/// A player's place in the lobby.
#[derive(Debug)]
pub struct LobbySlot {
    pub slot_id: u32,
    pub client_id: u64,
    pub player_name: String,
    /// It is the place of the player at this screen, as the server sees it.
    pub is_local: bool,
    pub megachunk: Option<(i32, i32)>,
    pub ready: bool,
}

/// What the lobby remembers.
#[derive(Debug)]
pub struct LobbyUiState {
    pub manual_join_addr: String,
    pub seed_text: String,
    pub local_megachunk_text: String,
    /// The places as the server last told them.
    pub remote_slots: Vec<LobbySlot>,
    pub local_megachunk: Option<(i32, i32)>,
    pub local_ready: bool,
}

/// A game that is offered on the local network.
#[derive(Debug)]
pub struct LanHost {
    pub game_name: String,
    pub ip: String,
    pub port: u16,
    pub players: u32,
    pub max_players: u32,
}

/// What the lobby asks for.
#[derive(Clone, Copy, Debug, PartialEq, Eq, Structural)]
pub enum LobbyAction {
    PickEra(Era),
    PickEconomy(EconomyPreset),
    PickMaturity(StartSettlementMaturity),
    EditSeed,
    ApplySeed,
    Reroll,
    PickHost(usize),
    EditAddress,
    Back,
    /// Turns the readiness of a place.
    TurnReady(usize),
    EditMegachunk,
    SetStart,
    TurnLocalReady,
    SoloStart,
}

/// The rows of the lobby.
pub type LobbyRows = Seq<Shown<LobbyAction>>;

/// A command to the lobby.
#[derive(Clone, Copy, Debug)]
pub enum LobbyCommand {
    SelectStart((i32, i32)),
    SetReady(bool),
    Leave,
}

/// Where a command goes.
#[derive(Clone, Copy, Debug)]
pub enum LobbyMessage {
    /// Over the wire, to the server.
    Wire(LobbyCommand),
    /// To the lobby in this process, in the name of a client.
    Here { client_id: u64, command: LobbyCommand },
}

/// This screen shows the host's side.
pub open spec fn hosts(mode: NetMode) -> bool {
    mode != NetMode::Client
}

pub fn is_remote_client(mode: NetMode) -> (b: bool)
    ensures
        b == !hosts(mode),
{
    match mode {
        NetMode::Client => true,
        _ => false,
    }
}

/// Where a command goes: a client sends it over the wire, if there is one; a host keeps it.
pub open spec fn routed(
    mode: NetMode,
    connected: bool,
    client_id: u64,
    command: LobbyCommand,
) -> Option<LobbyMessage> {
    if hosts(mode) {
        Some(LobbyMessage::Here { client_id, command })
    } else if connected {
        Some(LobbyMessage::Wire(command))
    } else {
        None
    }
}

fn route(mode: NetMode, connected: bool, client_id: u64, command: LobbyCommand) -> (r: Option<
    LobbyMessage,
>)
    ensures
        r == routed(mode, connected, client_id, command),
{
    if !is_remote_client(mode) {
        Some(LobbyMessage::Here { client_id, command })
    } else if connected {
        Some(LobbyMessage::Wire(command))
    } else {
        None
    }
}

pub fn send_select_start(
    mode: NetMode,
    connected: bool,
    client_id: u64,
    megachunk: (i32, i32),
) -> (r: Option<LobbyMessage>)
    ensures
        r == routed(mode, connected, client_id, LobbyCommand::SelectStart(megachunk)),
{
    route(mode, connected, client_id, LobbyCommand::SelectStart(megachunk))
}

pub fn send_set_ready(mode: NetMode, connected: bool, client_id: u64, ready: bool) -> (r: Option<
    LobbyMessage,
>)
    ensures
        r == routed(mode, connected, client_id, LobbyCommand::SetReady(ready)),
{
    route(mode, connected, client_id, LobbyCommand::SetReady(ready))
}

pub fn send_leave(mode: NetMode, connected: bool, client_id: u64) -> (r: Option<LobbyMessage>)
    ensures
        r == routed(mode, connected, client_id, LobbyCommand::Leave),
{
    route(mode, connected, client_id, LobbyCommand::Leave)
}

/// The number under which the player at this screen plays: a client's own, else the host's.
pub fn local_client_id(mode: NetMode, derived: u64, host_id: u64) -> (id: u64)
    ensures
        id == (if hosts(mode) {
            host_id
        } else {
            derived
        }),
{
    if is_remote_client(mode) {
        derived
    } else {
        host_id
    }
}

/// How a player announces themself on entering.
#[derive(Debug)]
pub enum LobbyJoin {
    Wire { protocol_version: u32, player_name: String },
    Here { player_name: String, client_id: u64 },
}

/// The name under which a player joins.
pub open spec fn join_name(name: Option<String>) -> Seq<char> {
    match name {
        Some(s) => s@,
        None => "Host"@,
    }
}

/// Announces the player: a client over the wire, if there is one; a host to its own lobby.
pub fn auto_join_lobby_on_enter(
    mode: NetMode,
    connected: bool,
    name: &Option<String>,
    protocol: u32,
    host_id: u64,
) -> (r: Option<LobbyJoin>)
    ensures
        match r {
            Some(LobbyJoin::Wire { protocol_version, player_name }) => {
                &&& !hosts(mode)
                &&& connected
                &&& protocol_version == protocol
                &&& player_name@ == join_name(*name)
            },
            Some(LobbyJoin::Here { player_name, client_id }) => {
                &&& hosts(mode)
                &&& client_id == host_id
                &&& player_name@ == join_name(*name)
            },
            None => !hosts(mode) && !connected,
        },
{
    let player_name = match name {
        Some(s) => s.as_str().to_owned(),
        None => "Host".to_owned(),
    };
    if !is_remote_client(mode) {
        Some(LobbyJoin::Here { player_name, client_id: host_id })
    } else if connected {
        Some(LobbyJoin::Wire { protocol_version: protocol, player_name })
    } else {
        None
    }
}

/// A place is ready to start.
pub open spec fn slot_ready(s: LobbySlot) -> bool {
    s.ready && s.megachunk is Some
}

/// There are players, and every one of them has picked a start and is ready.
pub open spec fn everyone_ready(slots: Seq<LobbySlot>) -> bool {
    &&& slots.len() > 0
    &&& forall|i: int| 0 <= i < slots.len() ==> slot_ready(#[trigger] slots[i])
}

/// Whether every player has picked a start and is ready.
pub fn all_ready(slots: &Vec<LobbySlot>) -> (b: bool)
    ensures
        b == everyone_ready(slots@),
{
    if slots.len() == 0 {
        return false;
    }
    let mut i: usize = 0;
    while i < slots.len()
        invariant
            i <= slots.len(),
            slots@.len() > 0,
            forall|j: int| 0 <= j < i ==> slot_ready(#[trigger] slots@[j]),
        decreases slots.len() - i,
    {
        if !(slots[i].ready && slots[i].megachunk.is_some()) {
            assert(!slot_ready(slots@[i as int]));
            return false;
        }
        i += 1;
    }
    true
}

pub open spec fn is_host_slot(host_id: u64) -> spec_fn(LobbySlot) -> bool {
    |s: LobbySlot| s.client_id == host_id
}

/// The start of a game that the host plays alone: the host's own, else the one set before.
pub open spec fn solo_start(
    slots: Seq<LobbySlot>,
    host_id: u64,
    before: Option<(i32, i32)>,
) -> Option<(i32, i32)> {
    match find(slots, is_host_slot(host_id)) {
        Some(s) => s.megachunk,
        None => before,
    }
}

fn start_alone(slots: &Vec<LobbySlot>, host_id: u64, before: Option<(i32, i32)>) -> (r: Option<
    (i32, i32),
>)
    ensures
        r == solo_start(slots@, host_id, before),
{
    let ghost p = is_host_slot(host_id);
    let mut i: usize = 0;
    while i < slots.len()
        invariant
            i <= slots.len(),
            p == is_host_slot(host_id),
            forall|j: int| 0 <= j < i ==> !p(#[trigger] slots@[j]),
        decreases slots.len() - i,
    {
        if slots[i].client_id == host_id {
            proof {
                find_is_first(slots@, p, i as int);
            }
            return slots[i].megachunk;
        }
        i += 1;
    }
    proof {
        find_is_none(slots@, p);
    }
    before
}

/// A choice among several.
pub open spec fn radio(on: bool, name: Seq<char>, a: LobbyAction) -> Shown<LobbyAction> {
    (Widget::Choice(on), name, Some(a))
}

pub open spec fn age_at(k: int) -> Era {
    crate::debug_panel::era_at(k)
}

/// The choices of the first `n` ages.
pub open spec fn era_choices(p: LobbyRows, names: Seq<String>, now: Era, n: int) -> LobbyRows
    decreases n,
{
    if n <= 0 {
        p
    } else {
        era_choices(p, names, now, n - 1).push(
            radio(age_at(n - 1) == now, names[n - 1]@, LobbyAction::PickEra(age_at(n - 1))),
        )
    }
}

/// The settings of a host.
pub open spec fn host_rows(
    p: LobbyRows,
    o: GameStartOptions,
    names: Seq<String>,
    seed_text: Seq<char>,
) -> LobbyRows {
    let p = era_choices(
        p.push(styled(Tone::Plain, Style::Strong, "Era"@)),
        names,
        o.era,
        5,
    );
    p.push(styled(Tone::Plain, Style::Strong, "Economy"@)).push(
        radio(
            o.economy == EconomyPreset::Subsistence,
            "Subsistence"@,
            LobbyAction::PickEconomy(EconomyPreset::Subsistence),
        ),
    ).push(
        radio(
            o.economy == EconomyPreset::Mixed,
            "Mixed"@,
            LobbyAction::PickEconomy(EconomyPreset::Mixed),
        ),
    ).push(
        radio(
            o.economy == EconomyPreset::Market,
            "Market"@,
            LobbyAction::PickEconomy(EconomyPreset::Market),
        ),
    ).push(styled(Tone::Plain, Style::Strong, "Maturity"@)).push(
        radio(
            o.maturity == StartSettlementMaturity::Founder,
            "Founder"@,
            LobbyAction::PickMaturity(StartSettlementMaturity::Founder),
        ),
    ).push(
        radio(
            o.maturity == StartSettlementMaturity::Established,
            "Established"@,
            LobbyAction::PickMaturity(StartSettlementMaturity::Established),
        ),
    ).push(
        radio(
            o.maturity == StartSettlementMaturity::Developed,
            "Developed"@,
            LobbyAction::PickMaturity(StartSettlementMaturity::Developed),
        ),
    ).push(styled(Tone::Plain, Style::Strong, "World seed"@)).push(mark(Widget::Begin)).push(
        (Widget::Edit, seed_text, Some(LobbyAction::EditSeed)),
    ).push((Widget::Button(Tone::Plain), "Apply"@, Some(LobbyAction::ApplySeed))).push(
        (Widget::Button(Tone::Plain), "Reroll"@, Some(LobbyAction::Reroll)),
    ).push(mark(Widget::End))
}

/// The address of a host.
pub open spec fn address(h: LanHost) -> Seq<char> {
    h.ip@ + ":"@ + digits(h.port as nat)
}

/// The choices of the first `n` hosts.
pub open spec fn lan_rows(p: LobbyRows, list: Seq<LanHost>, picked: Seq<char>, n: int) -> LobbyRows
    decreases n,
{
    if n <= 0 {
        p
    } else {
        let h = list[n - 1];
        lan_rows(p, list, picked, n - 1).push(
            (
                Widget::Choice(picked == address(h)),
                h.game_name@ + " — "@ + address(h) + " ("@ + digits(h.players as nat) + "/"@
                    + digits(h.max_players as nat) + " players)"@,
                Some(LobbyAction::PickHost((n - 1) as usize)),
            ),
        )
    }
}

/// The address to join: what was typed or picked, else this machine.
pub open spec fn join_address(s: Seq<char>) -> Seq<char> {
    if s.len() == 0 {
        "127.0.0.1:5000"@
    } else {
        s
    }
}

/// The settings of somebody who joins.
pub open spec fn join_rows(p: LobbyRows, lan: Option<Vec<LanHost>>, addr: Seq<char>) -> LobbyRows {
    let p = p.push(styled(Tone::Plain, Style::Strong, "LAN browser"@));
    let p = match lan {
        Some(list) => if list@.len() == 0 {
            p.push(
                styled(
                    Tone::Weak,
                    Style::Small,
                    "(no hosts seen on this LAN — broadcasts every 1s)"@,
                ),
            )
        } else {
            lan_rows(p, list@, addr, list@.len() as int)
        },
        None => p.push(
            styled(Tone::Weak, Style::Small, "(LAN listener not started in this mode)"@),
        ),
    };
    p.push(styled(Tone::Plain, Style::Strong, "Server address"@)).push(
        (Widget::Edit, join_address(addr), Some(LobbyAction::EditAddress)),
    ).push(
        styled(Tone::Weak, Style::Small, "Manual entry overrides the browser selection."@),
    )
}

/// The place of a player, without readiness.
pub open spec fn slot_rows(p: LobbyRows, s: LobbySlot, local: bool) -> LobbyRows {
    let p = p.push(mark(Widget::Begin)).push(
        styled(
            Tone::Plain,
            Style::Strong,
            "["@ + digits(s.slot_id as nat) + "] "@ + s.player_name@ + (if local {
                " (you)"@
            } else {
                ""@
            }),
        ),
    ).push(mark(Widget::Rule));
    (match s.megachunk {
        Some(m) => p.push(
            line("@ ("@ + numeral(m.0 as int) + ","@ + numeral(m.1 as int) + ")"@),
        ),
        None => p.push(styled(Tone::Weak, Style::Normal, "(no start selected)"@)),
    }).push(mark(Widget::Rule))
}

/// The rows on the first `n` places, as the server told them.
pub open spec fn remote_rows(p: LobbyRows, slots: Seq<LobbySlot>, n: int) -> LobbyRows
    decreases n,
{
    if n <= 0 {
        p
    } else {
        let s = slots[n - 1];
        slot_rows(remote_rows(p, slots, n - 1), s, s.is_local).push(
            if s.ready {
                styled(Tone::Rgb(0, 255, 0), Style::Normal, "Ready"@)
            } else {
                styled(Tone::Weak, Style::Normal, "…"@)
            },
        ).push(mark(Widget::End))
    }
}

/// The rows on the first `n` places of the host's own list.
pub open spec fn own_rows(p: LobbyRows, slots: Seq<LobbySlot>, host_id: u64, n: int) -> LobbyRows
    decreases n,
{
    if n <= 0 {
        p
    } else {
        let s = slots[n - 1];
        slot_rows(own_rows(p, slots, host_id, n - 1), s, s.client_id == host_id).push(
            (
                Widget::Check(s.ready),
                "Ready"@,
                Some(LobbyAction::TurnReady((n - 1) as usize)),
            ),
        ).push(mark(Widget::End))
    }
}

/// The list of players.
pub open spec fn player_rows(
    p: LobbyRows,
    mode: NetMode,
    remote: Seq<LobbySlot>,
    own: Seq<LobbySlot>,
    host_id: u64,
) -> LobbyRows {
    let p = p.push(styled(Tone::Plain, Style::Heading, "Players"@));
    let nobody = styled::<LobbyAction>(Tone::Weak, Style::Italic, "No players yet."@);
    if hosts(mode) {
        if own.len() == 0 {
            p.push(nobody)
        } else {
            own_rows(p, own, host_id, own.len() as int)
        }
    } else if remote.len() == 0 {
        p.push(nobody)
    } else {
        remote_rows(p, remote, remote.len() as int)
    }
}

/// The controls of the player's own start.
pub open spec fn start_rows(
    p: LobbyRows,
    text: Seq<char>,
    picked: Option<(i32, i32)>,
    ready: bool,
) -> LobbyRows {
    let p = p.push(mark(Widget::Rule)).push(
        styled(Tone::Plain, Style::Strong, "Your start"@),
    ).push(mark(Widget::Begin)).push(line("megachunk:"@)).push(
        (Widget::Edit, text, Some(LobbyAction::EditMegachunk)),
    ).push((Widget::Button(Tone::Plain), "Set"@, Some(LobbyAction::SetStart)));
    let p = match picked {
        Some(m) => p.push(
            line("(set to "@ + numeral(m.0 as int) + ","@ + numeral(m.1 as int) + ")"@),
        ),
        None => p,
    };
    p.push(mark(Widget::End)).push(mark(Widget::Begin)).push(
        (Widget::Check(ready), "I'm ready"@, Some(LobbyAction::TurnLocalReady)),
    ).push(mark(Widget::End)).push(mark(Widget::Rule))
}

/// What is said on when the game starts. A host who is alone may start at once.
pub open spec fn waiting_rows(p: LobbyRows, mode: NetMode, own: Seq<LobbySlot>) -> LobbyRows {
    if hosts(mode) {
        let p = p.push(
            styled(
                Tone::Weak,
                Style::Small,
                if everyone_ready(own) {
                    "All ready — starting…"@
                } else {
                    "Every slot must pick a start and tick Ready."@
                },
            ),
        );
        if own.len() <= 1 {
            p.push((Widget::Button(Tone::Plain), "Solo Start"@, Some(LobbyAction::SoloStart)))
        } else {
            p
        }
    } else {
        p.push(styled(Tone::Weak, Style::Italic, "Waiting for host to start the game…"@))
    }
}

/// What the lobby is made from.
#[derive(Debug)]
pub struct LobbySheet {
    pub mode: NetMode,
    pub host_id: u64,
    pub options: GameStartOptions,
    /// The names of the five ages.
    pub era_names: Vec<String>,
    pub world_seed: u64,
    /// The places on the host's own list.
    pub slots: Vec<LobbySlot>,
    /// The games seen on the local network, where somebody listens for them.
    pub lan: Option<Vec<LanHost>>,
}

/// The text of the seed: what was typed, else the seed itself.
pub open spec fn seed_shown(text: Seq<char>, seed: u64) -> Seq<char> {
    if text.len() == 0 {
        digits(seed as nat)
    } else {
        text
    }
}

/// The lobby.
pub open spec fn lobby_rows(s: LobbySheet, ui: LobbyUiState) -> LobbyRows {
    let p = Seq::<Shown<LobbyAction>>::empty().push(
        styled(
            Tone::Plain,
            Style::Heading,
            if hosts(s.mode) {
                "Host Lobby"@
            } else {
                "Join Lobby"@
            },
        ),
    );
    let p = if hosts(s.mode) {
        host_rows(p, s.options, s.era_names@, seed_shown(ui.seed_text@, s.world_seed))
    } else {
        join_rows(p, s.lan, ui.manual_join_addr@)
    };
    let p = p.push(mark(Widget::Rule)).push(
        (Widget::Button(Tone::Plain), "← Back to Main Menu"@, Some(LobbyAction::Back)),
    ).push(mark(Widget::Column));
    let p = player_rows(p, s.mode, ui.remote_slots@, s.slots@, s.host_id);
    let p = start_rows(p, ui.local_megachunk_text@, ui.local_megachunk, ui.local_ready);
    waiting_rows(p, s.mode, s.slots@)
}

fn show_radio(page: &mut Page<LobbyAction>, on: bool, name: &str, a: LobbyAction)
    ensures
        final(page).shown() == old(page).shown().push(radio(on, name@, a)),
{
    page.offer(Widget::Choice(on), name, a);
}

fn show_host(
    page: &mut Page<LobbyAction>,
    o: GameStartOptions,
    names: &Vec<String>,
    seed_text: &String,
)
    requires
        names@.len() == 5,
    ensures
        final(page).shown() == host_rows(old(page).shown(), o, names@, seed_text@),
{
    page.note_in(Tone::Plain, Style::Strong, "Era");
    let ghost start = page.shown();
    let mut k: usize = 0;
    while k < 5
        invariant
            k <= 5,
            names@.len() == 5,
            page.shown() == era_choices(start, names@, o.era, k as int),
        decreases 5 - k,
    {
        let era = match k {
            0 => Era::Paleolithic,
            1 => Era::Mesolithic,
            2 => Era::Neolithic,
            3 => Era::Chalcolithic,
            _ => Era::BronzeAge,
        };
        show_radio(page, era == o.era, names[k].as_str(), LobbyAction::PickEra(era));
        k += 1;
    }
    page.note_in(Tone::Plain, Style::Strong, "Economy");
    show_radio(
        page,
        o.economy == EconomyPreset::Subsistence,
        "Subsistence",
        LobbyAction::PickEconomy(EconomyPreset::Subsistence),
    );
    show_radio(
        page,
        o.economy == EconomyPreset::Mixed,
        "Mixed",
        LobbyAction::PickEconomy(EconomyPreset::Mixed),
    );
    show_radio(
        page,
        o.economy == EconomyPreset::Market,
        "Market",
        LobbyAction::PickEconomy(EconomyPreset::Market),
    );
    page.note_in(Tone::Plain, Style::Strong, "Maturity");
    show_radio(
        page,
        o.maturity == StartSettlementMaturity::Founder,
        "Founder",
        LobbyAction::PickMaturity(StartSettlementMaturity::Founder),
    );
    show_radio(
        page,
        o.maturity == StartSettlementMaturity::Established,
        "Established",
        LobbyAction::PickMaturity(StartSettlementMaturity::Established),
    );
    show_radio(
        page,
        o.maturity == StartSettlementMaturity::Developed,
        "Developed",
        LobbyAction::PickMaturity(StartSettlementMaturity::Developed),
    );
    page.note_in(Tone::Plain, Style::Strong, "World seed");
    page.place(Widget::Begin);
    page.offer(Widget::Edit, seed_text.as_str(), LobbyAction::EditSeed);
    page.offer(Widget::Button(Tone::Plain), "Apply", LobbyAction::ApplySeed);
    page.offer(Widget::Button(Tone::Plain), "Reroll", LobbyAction::Reroll);
    page.place(Widget::End);
}

/// The address of a host on the local network.
pub fn host_address(h: &LanHost) -> (s: String)
    ensures
        s@ == address(*h),
{
    Text::of(h.ip.as_str()).with(":").number(h.port as u64).done()
}

fn show_lan(page: &mut Page<LobbyAction>, list: &Vec<LanHost>, picked: &String)
    ensures
        final(page).shown() == lan_rows(
            old(page).shown(),
            list@,
            picked@,
            list@.len() as int,
        ),
{
    let ghost start = page.shown();
    let mut i: usize = 0;
    while i < list.len()
        invariant
            i <= list.len(),
            page.shown() == lan_rows(start, list@, picked@, i as int),
        decreases list.len() - i,
    {
        let h = &list[i];
        let addr = host_address(h);
        page.put(
            Widget::Choice(same_text(picked.as_str(), addr.as_str())),
            Text::of(h.game_name.as_str()).with(" — ").with(addr.as_str()).with(" (").number(
                h.players as u64,
            ).with("/").number(h.max_players as u64).with(" players)").done(),
            Some(LobbyAction::PickHost(i)),
        );
        i += 1;
    }
}

fn show_join(page: &mut Page<LobbyAction>, lan: &Option<Vec<LanHost>>, addr: &mut String)
    ensures
        final(page).shown() == join_rows(old(page).shown(), *lan, old(addr)@),
        final(addr)@ == join_address(old(addr)@),
{
    page.note_in(Tone::Plain, Style::Strong, "LAN browser");
    match lan {
        Some(list) => {
            if list.len() == 0 {
                page.note_in(
                    Tone::Weak,
                    Style::Small,
                    "(no hosts seen on this LAN — broadcasts every 1s)",
                );
            } else {
                show_lan(page, list, addr);
            }
        },
        None => page.note_in(
            Tone::Weak,
            Style::Small,
            "(LAN listener not started in this mode)",
        ),
    }
    page.note_in(Tone::Plain, Style::Strong, "Server address");
    if addr.as_str().unicode_len() == 0 {
        *addr = "127.0.0.1:5000".to_owned();
    }
    page.offer(Widget::Edit, addr.as_str(), LobbyAction::EditAddress);
    page.note_in(Tone::Weak, Style::Small, "Manual entry overrides the browser selection.");
}

fn show_slot(page: &mut Page<LobbyAction>, s: &LobbySlot, local: bool)
    ensures
        final(page).shown() == slot_rows(old(page).shown(), *s, local),
{
    page.place(Widget::Begin);
    let badge = if local {
        " (you)"
    } else {
        ""
    };
    page.say_in(
        Tone::Plain,
        Style::Strong,
        Text::of("[").number(s.slot_id as u64).with("] ").with(s.player_name.as_str()).with(
            badge,
        ).done(),
    );
    page.place(Widget::Rule);
    match s.megachunk {
        Some(m) => page.say(
            Text::of("@ (").signed(m.0 as i64).with(",").signed(m.1 as i64).with(")").done(),
        ),
        None => page.note_in(Tone::Weak, Style::Normal, "(no start selected)"),
    }
    page.place(Widget::Rule);
}

fn show_players(
    page: &mut Page<LobbyAction>,
    mode: NetMode,
    remote: &Vec<LobbySlot>,
    own: &Vec<LobbySlot>,
    host_id: u64,
)
    ensures
        final(page).shown() == player_rows(old(page).shown(), mode, remote@, own@, host_id),
{
    page.note_in(Tone::Plain, Style::Heading, "Players");
    if !is_remote_client(mode) {
        if own.len() == 0 {
            page.note_in(Tone::Weak, Style::Italic, "No players yet.");
        } else {
            let ghost start = page.shown();
            let mut i: usize = 0;
            while i < own.len()
                invariant
                    i <= own.len(),
                    page.shown() == own_rows(start, own@, host_id, i as int),
                decreases own.len() - i,
            {
                show_slot(page, &own[i], own[i].client_id == host_id);
                page.offer(Widget::Check(own[i].ready), "Ready", LobbyAction::TurnReady(i));
                page.place(Widget::End);
                i += 1;
            }
        }
    } else if remote.len() == 0 {
        page.note_in(Tone::Weak, Style::Italic, "No players yet.");
    } else {
        let ghost start = page.shown();
        let mut i: usize = 0;
        while i < remote.len()
            invariant
                i <= remote.len(),
                page.shown() == remote_rows(start, remote@, i as int),
            decreases remote.len() - i,
        {
            show_slot(page, &remote[i], remote[i].is_local);
            if remote[i].ready {
                page.note_in(Tone::Rgb(0, 255, 0), Style::Normal, "Ready");
            } else {
                page.note_in(Tone::Weak, Style::Normal, "…");
            }
            page.place(Widget::End);
            i += 1;
        }
    }
}

fn show_start(
    page: &mut Page<LobbyAction>,
    text: &String,
    picked: Option<(i32, i32)>,
    ready: bool,
)
    ensures
        final(page).shown() == start_rows(old(page).shown(), text@, picked, ready),
{
    page.place(Widget::Rule);
    page.note_in(Tone::Plain, Style::Strong, "Your start");
    page.place(Widget::Begin);
    page.note("megachunk:");
    page.offer(Widget::Edit, text.as_str(), LobbyAction::EditMegachunk);
    page.offer(Widget::Button(Tone::Plain), "Set", LobbyAction::SetStart);
    match picked {
        Some(m) => page.say(
            Text::of("(set to ").signed(m.0 as i64).with(",").signed(m.1 as i64).with(")").done(),
        ),
        None => {},
    }
    page.place(Widget::End);
    page.place(Widget::Begin);
    page.offer(Widget::Check(ready), "I'm ready", LobbyAction::TurnLocalReady);
    page.place(Widget::End);
    page.place(Widget::Rule);
}

/// The lobby. An empty text of the seed or of the address is filled in.
pub fn lobby_system(s: &LobbySheet, ui: &mut LobbyUiState) -> (page: Page<LobbyAction>)
    requires
        s.era_names@.len() == 5,
    ensures
        page.shown() == lobby_rows(*s, *old(ui)),
        final(ui).seed_text@ == seed_shown(old(ui).seed_text@, s.world_seed),
        final(ui).manual_join_addr@ == (if hosts(s.mode) {
            old(ui).manual_join_addr@
        } else {
            join_address(old(ui).manual_join_addr@)
        }),
        final(ui).local_megachunk_text == old(ui).local_megachunk_text,
        final(ui).remote_slots == old(ui).remote_slots,
        final(ui).local_megachunk == old(ui).local_megachunk,
        final(ui).local_ready == old(ui).local_ready,
{
    if ui.seed_text.as_str().unicode_len() == 0 {
        ui.seed_text = Text::blank().number(s.world_seed).done();
    }
    let host = !is_remote_client(s.mode);
    let mut page: Page<LobbyAction> = Page::new();
    if host {
        page.note_in(Tone::Plain, Style::Heading, "Host Lobby");
        show_host(&mut page, s.options, &s.era_names, &ui.seed_text);
    } else {
        page.note_in(Tone::Plain, Style::Heading, "Join Lobby");
        show_join(&mut page, &s.lan, &mut ui.manual_join_addr);
    }
    page.place(Widget::Rule);
    page.offer(Widget::Button(Tone::Plain), "← Back to Main Menu", LobbyAction::Back);
    page.place(Widget::Column);
    show_players(&mut page, s.mode, &ui.remote_slots, &s.slots, s.host_id);
    show_start(&mut page, &ui.local_megachunk_text, ui.local_megachunk, ui.local_ready);
    if host {
        if all_ready(&s.slots) {
            page.note_in(Tone::Weak, Style::Small, "All ready — starting…");
        } else {
            page.note_in(
                Tone::Weak,
                Style::Small,
                "Every slot must pick a start and tick Ready.",
            );
        }
        if s.slots.len() <= 1 {
            page.offer(Widget::Button(Tone::Plain), "Solo Start", LobbyAction::SoloStart);
        }
    } else {
        page.note_in(Tone::Weak, Style::Italic, "Waiting for host to start the game…");
    }
    page
}

/// What follows from a press.
#[derive(Clone, Copy, Debug)]
pub enum LobbyEffect {
    Nothing,
    Send(LobbyMessage),
    Leave(GameState),
    /// The host starts alone, here.
    Start(Option<(i32, i32)>),
}

/// Takes a new seed: the text says what the seed is.
pub fn reseed(s: &mut LobbySheet, ui: &mut LobbyUiState, seed: u64)
    ensures
        final(s).world_seed == seed,
        final(ui).seed_text@ == digits(seed as nat),
        final(s).slots == old(s).slots,
        final(s).options == old(s).options,
        final(s).mode == old(s).mode,
        final(s).host_id == old(s).host_id,
        final(s).era_names == old(s).era_names,
        final(s).lan == old(s).lan,
        final(ui).manual_join_addr == old(ui).manual_join_addr,
        final(ui).local_megachunk_text == old(ui).local_megachunk_text,
        final(ui).remote_slots == old(ui).remote_slots,
        final(ui).local_megachunk == old(ui).local_megachunk,
        final(ui).local_ready == old(ui).local_ready,
{
    s.world_seed = seed;
    ui.seed_text = Text::blank().number(seed).done();
}

/// Takes a random seed. Whatever it is, the text says it.
pub fn reroll(s: &mut LobbySheet, ui: &mut LobbyUiState)
    ensures
        final(ui).seed_text@ == digits(final(s).world_seed as nat),
        final(s).slots == old(s).slots,
        final(s).options == old(s).options,
        final(s).mode == old(s).mode,
        final(s).host_id == old(s).host_id,
        final(s).era_names == old(s).era_names,
        final(s).lan == old(s).lan,
        final(ui).manual_join_addr == old(ui).manual_join_addr,
        final(ui).local_megachunk_text == old(ui).local_megachunk_text,
        final(ui).remote_slots == old(ui).remote_slots,
        final(ui).local_megachunk == old(ui).local_megachunk,
        final(ui).local_ready == old(ui).local_ready,
{
    let seed: u64 = any_number();
    reseed(s, ui, seed);
}

/// The seed after what was typed is applied: the number that was typed, if it is one.
pub fn apply_seed(s: &mut LobbySheet, ui: &LobbyUiState)
    ensures
        final(s).world_seed == (match u64_of(ui.seed_text@) {
            Some(v) => v,
            None => old(s).world_seed,
        }),
        final(s).slots == old(s).slots,
        final(s).options == old(s).options,
        final(s).mode == old(s).mode,
        final(s).host_id == old(s).host_id,
        final(s).era_names == old(s).era_names,
        final(s).lan == old(s).lan,
{
    match read_u64(ui.seed_text.as_str()) {
        Some(v) => {
            s.world_seed = v;
        },
        None => {},
    }
}

/// The options after a choice.
pub open spec fn options_after(o: GameStartOptions, a: LobbyAction) -> GameStartOptions {
    match a {
        LobbyAction::PickEra(era) => GameStartOptions { era, ..o },
        LobbyAction::PickEconomy(economy) => GameStartOptions { economy, ..o },
        LobbyAction::PickMaturity(maturity) => GameStartOptions { maturity, ..o },
        _ => o,
    }
}

/// The readiness of each place after a press.
pub open spec fn readiness_after(slots: Seq<LobbySlot>, a: LobbyAction, i: int) -> bool {
    match a {
        LobbyAction::TurnReady(k) => slots[i].ready != (k == i),
        _ => slots[i].ready,
    }
}

/// Two lists of places that differ in readiness only.
pub open spec fn same_places(a: Seq<LobbySlot>, b: Seq<LobbySlot>) -> bool {
    &&& a.len() == b.len()
    &&& forall|i: int|
        0 <= i < a.len() ==> (#[trigger] a[i]).slot_id == b[i].slot_id && a[i].client_id
            == b[i].client_id && a[i].player_name == b[i].player_name && a[i].is_local
            == b[i].is_local && a[i].megachunk == b[i].megachunk
}

/// Does what was asked for, but for the seed: see `reroll` and `apply_seed`. `primary` is the
/// start that was set before.
pub fn lobby_pressed(
    a: LobbyAction,
    s: &mut LobbySheet,
    ui: &mut LobbyUiState,
    client_id: u64,
    connected: bool,
    primary: Option<(i32, i32)>,
) -> (e: LobbyEffect)
    requires
        a matches LobbyAction::TurnReady(i) ==> i < old(s).slots@.len(),
        a matches LobbyAction::PickHost(i) ==> old(s).lan is Some && i < old(s).lan->0@.len(),
    ensures
        final(s).options == options_after(old(s).options, a),
        same_places(final(s).slots@, old(s).slots@),
        forall|i: int|
            0 <= i < final(s).slots@.len() ==> (#[trigger] final(s).slots@[i]).ready
                == readiness_after(old(s).slots@, a, i),
        final(s).mode == old(s).mode,
        final(s).host_id == old(s).host_id,
        final(s).world_seed == old(s).world_seed,
        final(s).era_names == old(s).era_names,
        final(s).lan == old(s).lan,
        final(ui).seed_text == old(ui).seed_text,
        final(ui).local_megachunk_text == old(ui).local_megachunk_text,
        final(ui).remote_slots == old(ui).remote_slots,
        final(ui).manual_join_addr@ == (match a {
            LobbyAction::PickHost(i) => address(old(s).lan->0@[i as int]),
            _ => old(ui).manual_join_addr@,
        }),
        final(ui).local_ready == (old(ui).local_ready != (a == LobbyAction::TurnLocalReady)),
        final(ui).local_megachunk == (match (a, pair_of(old(ui).local_megachunk_text@)) {
            (LobbyAction::SetStart, Some(m)) => Some(m),
            _ => old(ui).local_megachunk,
        }),
        e == (match a {
            LobbyAction::Back => LobbyEffect::Leave(GameState::MainMenu),
            LobbyAction::SetStart => match pair_of(old(ui).local_megachunk_text@) {
                Some(m) => sent(
                    routed(old(s).mode, connected, client_id, LobbyCommand::SelectStart(m)),
                ),
                None => LobbyEffect::Nothing,
            },
            LobbyAction::TurnLocalReady => sent(
                routed(
                    old(s).mode,
                    connected,
                    client_id,
                    LobbyCommand::SetReady(!old(ui).local_ready),
                ),
            ),
            LobbyAction::SoloStart => LobbyEffect::Start(
                solo_start(old(s).slots@, old(s).host_id, primary),
            ),
            _ => LobbyEffect::Nothing,
        }),
{
    match a {
        LobbyAction::PickEra(era) => {
            s.options.era = era;
        },
        LobbyAction::PickEconomy(economy) => {
            s.options.economy = economy;
        },
        LobbyAction::PickMaturity(maturity) => {
            s.options.maturity = maturity;
        },
        LobbyAction::PickHost(i) => {
            match &s.lan {
                Some(list) => {
                    ui.manual_join_addr = host_address(&list[i]);
                },
                None => {},
            }
        },
        LobbyAction::TurnReady(i) => {
            let ready: bool = s.slots[i].ready;
            s.slots[i].ready = !ready;
        },
        LobbyAction::Back => {
            return LobbyEffect::Leave(GameState::MainMenu);
        },
        LobbyAction::SetStart => {
            match parse_megachunk(ui.local_megachunk_text.as_str()) {
                Some(m) => {
                    ui.local_megachunk = Some(m);
                    match send_select_start(s.mode, connected, client_id, m) {
                        Some(msg) => {
                            return LobbyEffect::Send(msg);
                        },
                        None => {},
                    }
                },
                None => {},
            }
        },
        LobbyAction::TurnLocalReady => {
            ui.local_ready = !ui.local_ready;
            match send_set_ready(s.mode, connected, client_id, ui.local_ready) {
                Some(msg) => {
                    return LobbyEffect::Send(msg);
                },
                None => {},
            }
        },
        LobbyAction::SoloStart => {
            return LobbyEffect::Start(start_alone(&s.slots, s.host_id, primary));
        },
        _ => {},
    }
    LobbyEffect::Nothing
}

/// A message, if there is one, is sent.
pub open spec fn sent(m: Option<LobbyMessage>) -> LobbyEffect {
    match m {
        Some(m) => LobbyEffect::Send(m),
        None => LobbyEffect::Nothing,
    }
}

/// Whoever hosts talks to their own lobby, in the client's name, connected or not; a client talks
/// over the wire, and not at all without a connection. What is said arrives unchanged.
pub proof fn words_go_to_the_host(
    mode: NetMode,
    connected: bool,
    client_id: u64,
    command: LobbyCommand,
)
    ensures
        ({
            let m = routed(mode, connected, client_id, command);
            &&& mode == NetMode::Client && connected ==> m == Some(LobbyMessage::Wire(command))
            &&& mode == NetMode::Client && !connected ==> m is None
            &&& mode != NetMode::Client ==> m == Some(LobbyMessage::Here { client_id, command })
            &&& sent(m) is Nothing <==> mode == NetMode::Client && !connected
            &&& sent(m) matches LobbyEffect::Send(x) ==> m == Some(x)
        }),
{
}

/// A game starts when somebody is there and everybody has a start and is ready: one who is not
/// holds it up.
pub proof fn everybody_must_be_ready(slots: Seq<LobbySlot>, i: int)
    ensures
        slots.len() == 0 ==> !everyone_ready(slots),
        0 <= i < slots.len() && (!slots[i].ready || slots[i].megachunk is None) ==> !everyone_ready(
            slots,
        ),
        slots.len() > 0 && (forall|j: int|
            0 <= j < slots.len() ==> (#[trigger] slots[j]).ready && slots[j].megachunk is Some)
            ==> everyone_ready(slots),
{
}

/// A host who starts alone starts where their own place says; without a place, where it was said
/// before.
pub proof fn hosts_start_at_their_own_place(
    slots: Seq<LobbySlot>,
    host_id: u64,
    before: Option<(i32, i32)>,
    k: int,
)
    ensures
        (0 <= k < slots.len() && slots[k].client_id == host_id && forall|j: int|
            0 <= j < k ==> (#[trigger] slots[j]).client_id != host_id) ==> solo_start(
            slots,
            host_id,
            before,
        ) == slots[k].megachunk,
        (forall|j: int| 0 <= j < slots.len() ==> (#[trigger] slots[j]).client_id != host_id)
            ==> solo_start(slots, host_id, before) == before,
{
    let p = is_host_slot(host_id);
    if 0 <= k < slots.len() && slots[k].client_id == host_id && forall|j: int|
        0 <= j < k ==> (#[trigger] slots[j]).client_id != host_id {
        assert forall|j: int| 0 <= j < k implies !p(#[trigger] slots[j]) by {}
        find_is_first(slots, p, k);
    }
    if forall|j: int| 0 <= j < slots.len() ==> (#[trigger] slots[j]).client_id != host_id {
        assert forall|j: int| 0 <= j < slots.len() implies !p(#[trigger] slots[j]) by {}
        find_is_none(slots, p);
    }
}

/// A pick changes what it is for and nothing else; turning readiness turns it for one place only,
/// and twice is not at all.
pub proof fn picks_change_one_thing(
    o: GameStartOptions,
    slots: Seq<LobbySlot>,
    again: Seq<LobbySlot>,
    era: Era,
    economy: EconomyPreset,
    maturity: StartSettlementMaturity,
    k: usize,
    i: int,
)
    requires
        k < slots.len(),
        0 <= i < slots.len(),
        again.len() == slots.len(),
        again[i].ready == readiness_after(slots, LobbyAction::TurnReady(k), i),
    ensures
        ({
            let a = options_after(o, LobbyAction::PickEra(era));
            a.era == era && a.economy == o.economy && a.maturity == o.maturity
        }),
        ({
            let a = options_after(o, LobbyAction::PickEconomy(economy));
            a.era == o.era && a.economy == economy && a.maturity == o.maturity
        }),
        ({
            let a = options_after(o, LobbyAction::PickMaturity(maturity));
            a.era == o.era && a.economy == o.economy && a.maturity == maturity
        }),
        options_after(o, LobbyAction::TurnReady(k)) == o,
        k == i ==> again[i].ready == !slots[i].ready,
        k != i ==> again[i].ready == slots[i].ready,
        readiness_after(again, LobbyAction::TurnReady(k), i) == slots[i].ready,
        readiness_after(slots, LobbyAction::SoloStart, i) == slots[i].ready,
{
}

/// Only a host is offered to start alone, and only with no second place taken.
pub proof fn only_lone_hosts_start_alone(p: LobbyRows, mode: NetMode, own: Seq<LobbySlot>)
    ensures
        ({
            let q = waiting_rows(p, mode, own);
            let offered = q.last().2 == Some(LobbyAction::SoloStart);
            &&& mode == NetMode::Client ==> !offered && q.len() == p.len() + 1
            &&& mode != NetMode::Client ==> (offered <==> own.len() <= 1)
        }),
{
}

/// What was typed is shown; with nothing typed, the seed of the world and the address of this
/// machine are.
pub proof fn empty_fields_show_what_holds(text: Seq<char>, seed: u64)
    ensures
        text.len() > 0 ==> seed_shown(text, seed) == text && join_address(text) == text,
        text.len() == 0 ==> seed_shown(text, seed) == digits(seed as nat) && join_address(text)
            == "127.0.0.1:5000"@,
{
}

/// Every age is offered by its own name, and the one that holds is the one that is marked.
pub proof fn the_age_that_holds_is_marked(
    p: LobbyRows,
    names: Seq<String>,
    now: Era,
    n: int,
    k: int,
)
    requires
        0 <= k < n,
    ensures
        era_choices(p, names, now, n).len() == p.len() + n,
        era_choices(p, names, now, n).take(p.len() as int) =~= p,
        ({
            let row = era_choices(p, names, now, n)[p.len() + k];
            &&& row.0 == Widget::Choice(age_at(k) == now)
            &&& row.1 == names[k]@
            &&& row.2 == Some(LobbyAction::PickEra(age_at(k)))
        }),
    decreases n,
{
    if k < n - 1 {
        the_age_that_holds_is_marked(p, names, now, n - 1, k);
    } else if n > 1 {
        the_age_that_holds_is_marked(p, names, now, n - 1, 0);
    } else {
        assert(era_choices(p, names, now, 0) == p);
    }
}

} // verus!
