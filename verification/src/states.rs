//! Top-level game states and the transitions between them.
use vstd::prelude::*;
use crate::input::InputIntent;

verus! {

/// Top-level game state.
#[derive(Debug, Clone, Copy, PartialEq, Eq, Hash, Structural)]
pub enum GameState {
    Title,
    Loading,
    Playing,
    Paused,
    Won,
    GameOver,
}

impl Default for GameState {
    fn default() -> (r: Self)
        ensures
            r == GameState::Title,
    {
        GameState::Title
    }
}

/// Whether the state shows an overlay window with buttons (title, pause,
/// victory, game over) rather than the playable scene.
pub open spec fn spec_is_overlay(gs: GameState) -> bool {
    gs == GameState::Title || gs == GameState::Paused || gs == GameState::Won || gs == GameState::GameOver
}

/// Whether the state shows an overlay window with buttons.
#[verifier::when_used_as_spec(spec_is_overlay)]
pub fn is_overlay(gs: GameState) -> (r: bool)
    ensures
        r == spec_is_overlay(gs),
{
    match gs {
        GameState::Title | GameState::Paused | GameState::Won | GameState::GameOver => true,
        _ => false,
    }
}

/// The state after loading: `Loading` moves on to `Playing`.
pub fn auto_start(state: GameState) -> (r: Option<GameState>)
    ensures
        state == GameState::Loading ==> r == Some(GameState::Playing),
        state != GameState::Loading ==> r is None,
{
    if state == GameState::Loading {
        Some(GameState::Playing)
    } else {
        None
    }
}

/// Whether any of `intents` asks to toggle pause: `TogglePause`, or
/// `CancelOrBack` when the camera has no spot to go back to.
pub open spec fn wants_pause_toggle(intents: Seq<InputIntent>, can_go_back: bool) -> bool {
    exists|i: int|
        0 <= i < intents.len() && (#[trigger] intents[i] == InputIntent::TogglePause || (intents[i]
            == InputIntent::CancelOrBack && !can_go_back))
}

/// The state a pause toggle leads to: `Playing` and `Paused` swap; other
/// states do not toggle.
pub open spec fn toggled(state: GameState) -> Option<GameState> {
    match state {
        GameState::Playing => Some(GameState::Paused),
        GameState::Paused => Some(GameState::Playing),
        _ => None,
    }
}

/// The next state after this frame's intents, when pause is toggled.
pub fn toggle_pause(state: GameState, intents: &Vec<InputIntent>, can_go_back: bool) -> (r: Option<GameState>)
    ensures
        r == (if wants_pause_toggle(intents@, can_go_back) {
            toggled(state)
        } else {
            None
        }),
{
    let mut should_toggle = false;
    let mut i: usize = 0;
    while i < intents.len()
        invariant
            i <= intents@.len(),
            should_toggle == (exists|j: int|
                0 <= j < i && (#[trigger] intents@[j] == InputIntent::TogglePause || (intents@[j]
                    == InputIntent::CancelOrBack && !can_go_back))),
        decreases intents@.len() - i,
    {
        let intent = intents[i];
        match intent {
            InputIntent::TogglePause => {
                should_toggle = true;
            },
            InputIntent::CancelOrBack => {
                if !can_go_back {
                    should_toggle = true;
                }
            },
            _ => {},
        }
        assert(intents@[i as int] == intent);
        i = i + 1;
    }
    if !should_toggle {
        return None;
    }
    match state {
        GameState::Playing => Some(GameState::Paused),
        GameState::Paused => Some(GameState::Playing),
        _ => None,
    }
}

/// Which UI panels and overlay windows a game state shows.
#[derive(Debug, Clone, Copy, PartialEq, Eq, Structural)]
pub struct OverlayFlags {
    pub show_title: bool,
    pub show_help: bool,
    pub show_victory: bool,
    pub show_game_over: bool,
    pub show_room_info: bool,
    pub show_inventory: bool,
    pub show_objectives: bool,
}

/// The panels shown in `gs`: one overlay window per overlay state (help for
/// `Paused`), and the game panels only while playing or paused.
pub fn overlay_flags(gs: GameState) -> (r: OverlayFlags)
    ensures
        r.show_title == (gs == GameState::Title),
        r.show_help == (gs == GameState::Paused),
        r.show_victory == (gs == GameState::Won),
        r.show_game_over == (gs == GameState::GameOver),
        r.show_room_info == (gs == GameState::Playing || gs == GameState::Paused),
        r.show_inventory == (gs == GameState::Playing || gs == GameState::Paused),
        r.show_objectives == (gs == GameState::Playing || gs == GameState::Paused),
{
    let in_game = gs == GameState::Playing || gs == GameState::Paused;
    OverlayFlags {
        show_title: gs == GameState::Title,
        show_help: gs == GameState::Paused,
        show_victory: gs == GameState::Won,
        show_game_over: gs == GameState::GameOver,
        show_room_info: in_game,
        show_inventory: in_game,
        show_objectives: in_game,
    }
}

/// Law: toggling pause twice from `Playing` or `Paused` comes back to the
/// same state.
pub proof fn law_pause_toggle_round_trip(state: GameState)
    requires
        state == GameState::Playing || state == GameState::Paused,
    ensures
        toggled(state) is Some,
        toggled(toggled(state).unwrap()) == Some(state),
{
}

} // verus!
