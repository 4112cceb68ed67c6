//! Input abstraction: player intents decoupled from raw keys and buttons,
//! rebindable key names, and keyboard focus cycling over clickable objects.
use vstd::prelude::*;
use crate::seqs::{first_index, lemma_first_index, lemma_first_index_is, lemma_first_index_none};

verus! {

/// Input-agnostic player intent, produced from raw input and consumed by
/// game logic.
#[derive(Debug, Clone, Copy, PartialEq, Eq, Structural)]
pub enum InputIntent {
    /// Confirm action on the currently focused/hovered object (Enter, click)
    ConfirmFocused,
    /// Go back to previous camera spot (Escape, right-click)
    CancelOrBack,
    /// Return camera to room's starting spot (Space)
    ReturnToCenter,
    /// Toggle pause (P, Escape at root)
    TogglePause,
    /// Focus next clickable object (Tab)
    CycleNext,
    /// Focus previous clickable object (Shift+Tab)
    CyclePrev,
}

/// A keyboard key that a binding can name.
#[derive(Debug, Clone, Copy, PartialEq, Eq, Structural)]
pub enum Key {
    Escape,
    Space,
    Enter,
    Tab,
    Backspace,
    F1,
    F2,
    F3,
    F4,
    F5,
    KeyA,
    KeyB,
    KeyC,
    KeyD,
    KeyE,
    KeyF,
    KeyG,
    KeyH,
    KeyI,
    KeyJ,
    KeyK,
    KeyL,
    KeyM,
    KeyN,
    KeyO,
    KeyP,
    KeyQ,
    KeyR,
    KeyS,
    KeyT,
    KeyU,
    KeyV,
    KeyW,
    KeyX,
    KeyY,
    KeyZ,
    Digit1,
    Digit2,
    Digit3,
    Digit4,
    Digit5,
    ArrowUp,
    ArrowDown,
    ArrowLeft,
    ArrowRight,
}

/// The key a binding name stands for.
#[verifier::opaque]
pub open spec fn key_named(s: Seq<char>) -> Option<Key> {
    if s == "Escape"@ {
        Some(Key::Escape)
    } else if s == "Space"@ {
        Some(Key::Space)
    } else if s == "Enter"@ {
        Some(Key::Enter)
    } else if s == "Tab"@ {
        Some(Key::Tab)
    } else if s == "Backspace"@ {
        Some(Key::Backspace)
    } else if s == "F1"@ {
        Some(Key::F1)
    } else if s == "F2"@ {
        Some(Key::F2)
    } else if s == "F3"@ {
        Some(Key::F3)
    } else if s == "F4"@ {
        Some(Key::F4)
    } else if s == "F5"@ {
        Some(Key::F5)
    } else if s == "KeyA"@ {
        Some(Key::KeyA)
    } else if s == "KeyB"@ {
        Some(Key::KeyB)
    } else if s == "KeyC"@ {
        Some(Key::KeyC)
    } else if s == "KeyD"@ {
        Some(Key::KeyD)
    } else if s == "KeyE"@ {
        Some(Key::KeyE)
    } else if s == "KeyF"@ {
        Some(Key::KeyF)
    } else if s == "KeyG"@ {
        Some(Key::KeyG)
    } else if s == "KeyH"@ {
        Some(Key::KeyH)
    } else if s == "KeyI"@ {
        Some(Key::KeyI)
    } else if s == "KeyJ"@ {
        Some(Key::KeyJ)
    } else if s == "KeyK"@ {
        Some(Key::KeyK)
    } else if s == "KeyL"@ {
        Some(Key::KeyL)
    } else if s == "KeyM"@ {
        Some(Key::KeyM)
    } else if s == "KeyN"@ {
        Some(Key::KeyN)
    } else if s == "KeyO"@ {
        Some(Key::KeyO)
    } else if s == "KeyP"@ {
        Some(Key::KeyP)
    } else if s == "KeyQ"@ {
        Some(Key::KeyQ)
    } else if s == "KeyR"@ {
        Some(Key::KeyR)
    } else if s == "KeyS"@ {
        Some(Key::KeyS)
    } else if s == "KeyT"@ {
        Some(Key::KeyT)
    } else if s == "KeyU"@ {
        Some(Key::KeyU)
    } else if s == "KeyV"@ {
        Some(Key::KeyV)
    } else if s == "KeyW"@ {
        Some(Key::KeyW)
    } else if s == "KeyX"@ {
        Some(Key::KeyX)
    } else if s == "KeyY"@ {
        Some(Key::KeyY)
    } else if s == "KeyZ"@ {
        Some(Key::KeyZ)
    } else if s == "Digit1"@ {
        Some(Key::Digit1)
    } else if s == "Digit2"@ {
        Some(Key::Digit2)
    } else if s == "Digit3"@ {
        Some(Key::Digit3)
    } else if s == "Digit4"@ {
        Some(Key::Digit4)
    } else if s == "Digit5"@ {
        Some(Key::Digit5)
    } else if s == "ArrowUp"@ {
        Some(Key::ArrowUp)
    } else if s == "ArrowDown"@ {
        Some(Key::ArrowDown)
    } else if s == "ArrowLeft"@ {
        Some(Key::ArrowLeft)
    } else if s == "ArrowRight"@ {
        Some(Key::ArrowRight)
    } else {
        None
    }
}

/// Parses a key binding name ("Escape", "KeyP", "F1", ...) into a key.
pub fn parse_key(s: &str) -> (r: Option<Key>)
    ensures
        r == key_named(s@),
{
    reveal(key_named);
    let owned = s.to_owned();
    if owned == "Escape".to_owned() {
        return Some(Key::Escape);
    }
    if owned == "Space".to_owned() {
        return Some(Key::Space);
    }
    if owned == "Enter".to_owned() {
        return Some(Key::Enter);
    }
    if owned == "Tab".to_owned() {
        return Some(Key::Tab);
    }
    if owned == "Backspace".to_owned() {
        return Some(Key::Backspace);
    }
    if owned == "F1".to_owned() {
        return Some(Key::F1);
    }
    if owned == "F2".to_owned() {
        return Some(Key::F2);
    }
    if owned == "F3".to_owned() {
        return Some(Key::F3);
    }
    if owned == "F4".to_owned() {
        return Some(Key::F4);
    }
    if owned == "F5".to_owned() {
        return Some(Key::F5);
    }
    if owned == "KeyA".to_owned() {
        return Some(Key::KeyA);
    }
    if owned == "KeyB".to_owned() {
        return Some(Key::KeyB);
    }
    if owned == "KeyC".to_owned() {
        return Some(Key::KeyC);
    }
    if owned == "KeyD".to_owned() {
        return Some(Key::KeyD);
    }
    if owned == "KeyE".to_owned() {
        return Some(Key::KeyE);
    }
    if owned == "KeyF".to_owned() {
        return Some(Key::KeyF);
    }
    if owned == "KeyG".to_owned() {
        return Some(Key::KeyG);
    }
    if owned == "KeyH".to_owned() {
        return Some(Key::KeyH);
    }
    if owned == "KeyI".to_owned() {
        return Some(Key::KeyI);
    }
    if owned == "KeyJ".to_owned() {
        return Some(Key::KeyJ);
    }
    if owned == "KeyK".to_owned() {
        return Some(Key::KeyK);
    }
    if owned == "KeyL".to_owned() {
        return Some(Key::KeyL);
    }
    if owned == "KeyM".to_owned() {
        return Some(Key::KeyM);
    }
    if owned == "KeyN".to_owned() {
        return Some(Key::KeyN);
    }
    if owned == "KeyO".to_owned() {
        return Some(Key::KeyO);
    }
    if owned == "KeyP".to_owned() {
        return Some(Key::KeyP);
    }
    if owned == "KeyQ".to_owned() {
        return Some(Key::KeyQ);
    }
    if owned == "KeyR".to_owned() {
        return Some(Key::KeyR);
    }
    if owned == "KeyS".to_owned() {
        return Some(Key::KeyS);
    }
    if owned == "KeyT".to_owned() {
        return Some(Key::KeyT);
    }
    if owned == "KeyU".to_owned() {
        return Some(Key::KeyU);
    }
    if owned == "KeyV".to_owned() {
        return Some(Key::KeyV);
    }
    if owned == "KeyW".to_owned() {
        return Some(Key::KeyW);
    }
    if owned == "KeyX".to_owned() {
        return Some(Key::KeyX);
    }
    if owned == "KeyY".to_owned() {
        return Some(Key::KeyY);
    }
    if owned == "KeyZ".to_owned() {
        return Some(Key::KeyZ);
    }
    if owned == "Digit1".to_owned() {
        return Some(Key::Digit1);
    }
    if owned == "Digit2".to_owned() {
        return Some(Key::Digit2);
    }
    if owned == "Digit3".to_owned() {
        return Some(Key::Digit3);
    }
    if owned == "Digit4".to_owned() {
        return Some(Key::Digit4);
    }
    if owned == "Digit5".to_owned() {
        return Some(Key::Digit5);
    }
    if owned == "ArrowUp".to_owned() {
        return Some(Key::ArrowUp);
    }
    if owned == "ArrowDown".to_owned() {
        return Some(Key::ArrowDown);
    }
    if owned == "ArrowLeft".to_owned() {
        return Some(Key::ArrowLeft);
    }
    if owned == "ArrowRight".to_owned() {
        return Some(Key::ArrowRight);
    }
    None
}

/// Rebindable key bindings.
#[derive(Debug, Clone, Copy, PartialEq, Eq, Structural)]
pub struct InputConfig {
    pub back: Key,
    pub return_to_center: Key,
    pub pause: Key,
    pub cycle_next: Key,
    pub confirm: Key,
    pub debug_overlay: Key,
}

impl Default for InputConfig {
    fn default() -> (r: Self)
        ensures
            r == (InputConfig {
                back: Key::Escape,
                return_to_center: Key::Space,
                pause: Key::KeyP,
                cycle_next: Key::Tab,
                confirm: Key::Enter,
                debug_overlay: Key::F1,
            }),
    {
        InputConfig {
            back: Key::Escape,
            return_to_center: Key::Space,
            pause: Key::KeyP,
            cycle_next: Key::Tab,
            confirm: Key::Enter,
            debug_overlay: Key::F1,
        }
    }
}

/// Key bindings as written in the settings file, by key name.
#[derive(Debug, Clone)]
pub struct InputConfigRaw {
    pub back: String,
    pub return_to_center: String,
    pub pause: String,
    pub cycle_next: String,
    pub confirm: String,
    pub debug_overlay: String,
}

/// The binding after reading a key name: the named key, or the old binding
/// when the name is unknown.
pub open spec fn rebound(old_key: Key, name: Seq<char>) -> Key {
    match key_named(name) {
        Some(k) => k,
        None => old_key,
    }
}

/// The binding after reading the key name `name`.
fn rebind(old_key: Key, name: &str) -> (k: Key)
    ensures
        k == rebound(old_key, name@),
{
    match parse_key(name) {
        Some(k) => k,
        None => old_key,
    }
}

/// Applies the bindings of the settings file, once: every known key name
/// replaces its binding, unknown names keep the current one. Nothing happens
/// when the file was applied already or is not available.
pub fn apply_input_config(config: &mut InputConfig, applied: &mut bool, raw: Option<&InputConfigRaw>)
    ensures
        (*old(applied) || raw is None) ==> (*final(config) == *old(config) && *final(applied) == *old(applied)),
        (!*old(applied) && raw is Some) ==> ({
            let r = raw.unwrap();
            &&& *final(applied)
            &&& *final(config) == (InputConfig {
                back: rebound(old(config).back, r.back@),
                return_to_center: rebound(old(config).return_to_center, r.return_to_center@),
                pause: rebound(old(config).pause, r.pause@),
                cycle_next: rebound(old(config).cycle_next, r.cycle_next@),
                confirm: rebound(old(config).confirm, r.confirm@),
                debug_overlay: rebound(old(config).debug_overlay, r.debug_overlay@),
            })
        }),
{
    if *applied {
        return;
    }
    let raw = match raw {
        Some(raw) => raw,
        None => return,
    };
    config.back = rebind(config.back, raw.back.as_str());
    config.return_to_center = rebind(config.return_to_center, raw.return_to_center.as_str());
    config.pause = rebind(config.pause, raw.pause.as_str());
    config.cycle_next = rebind(config.cycle_next, raw.cycle_next.as_str());
    config.confirm = rebind(config.confirm, raw.confirm.as_str());
    config.debug_overlay = rebind(config.debug_overlay, raw.debug_overlay.as_str());
    *applied = true;
}

/// This frame's raw input, read from the keyboard and mouse through the
/// current bindings.
#[derive(Debug, Clone, Copy)]
pub struct RawInput {
    /// The UI does not want keyboard input.
    pub keyboard_free: bool,
    /// The UI does not want pointer input.
    pub pointer_free: bool,
    pub back_pressed: bool,
    pub right_click: bool,
    pub center_pressed: bool,
    pub pause_pressed: bool,
    pub cycle_pressed: bool,
    pub shift_held: bool,
    pub confirm_pressed: bool,
}

/// The intents this frame's input produces, in order.
pub open spec fn intents_for(raw: RawInput, overlay: bool) -> Seq<InputIntent> {
    let s0 = Seq::<InputIntent>::empty();
    let s1 = if raw.keyboard_free && raw.back_pressed { s0.push(InputIntent::CancelOrBack) } else { s0 };
    let s2 = if raw.pointer_free && raw.right_click { s1.push(InputIntent::CancelOrBack) } else { s1 };
    let s3 = if raw.keyboard_free && raw.center_pressed { s2.push(InputIntent::ReturnToCenter) } else { s2 };
    let s4 = if raw.keyboard_free && raw.pause_pressed { s3.push(InputIntent::TogglePause) } else { s3 };
    let s5 = if raw.keyboard_free && !overlay && raw.cycle_pressed {
        s4.push(if raw.shift_held { InputIntent::CyclePrev } else { InputIntent::CycleNext })
    } else {
        s4
    };
    if raw.keyboard_free && !overlay && raw.confirm_pressed { s5.push(InputIntent::ConfirmFocused) } else { s5 }
}

/// Turns this frame's raw input into intents. Every key is ignored while the
/// UI wants the keyboard (and the right button while it wants the pointer);
/// Tab and Enter go to the scene only outside overlay states, where the UI's
/// own buttons take them.
pub fn produce_input_intents(raw: RawInput, game_state: crate::states::GameState) -> (r: Vec<InputIntent>)
    ensures
        r@ == intents_for(raw, crate::states::spec_is_overlay(game_state)),
{
    let is_overlay = crate::states::is_overlay(game_state);
    let mut r: Vec<InputIntent> = Vec::new();
    if raw.keyboard_free && raw.back_pressed {
        r.push(InputIntent::CancelOrBack);
    }
    if raw.pointer_free && raw.right_click {
        r.push(InputIntent::CancelOrBack);
    }
    if raw.keyboard_free && raw.center_pressed {
        r.push(InputIntent::ReturnToCenter);
    }
    if raw.keyboard_free && raw.pause_pressed {
        r.push(InputIntent::TogglePause);
    }
    if raw.keyboard_free && !is_overlay {
        if raw.cycle_pressed {
            if raw.shift_held {
                r.push(InputIntent::CyclePrev);
            } else {
                r.push(InputIntent::CycleNext);
            }
        }
        if raw.confirm_pressed {
            r.push(InputIntent::ConfirmFocused);
        }
    }
    assert(r@ =~= intents_for(raw, crate::states::spec_is_overlay(game_state)));
    r
}

/// Tracks which clickable entity has keyboard focus for Tab cycling.
#[derive(Debug)]
pub struct FocusedClickable {
    pub entity: Option<u64>,
    pub ordered: Vec<u64>,
}

impl Default for FocusedClickable {
    fn default() -> (r: Self)
        ensures
            r.entity is None,
            r.ordered@.len() == 0,
    {
        FocusedClickable { entity: None, ordered: Vec::new() }
    }
}

/// Rebuilds the focus order when the number of clickable entities changed
/// since the last rebuild (`last_count`); a focused entity that is gone
/// loses focus.
pub fn update_clickable_focus_list(clickables: &Vec<u64>, focused: &mut FocusedClickable, last_count: &mut usize)
    ensures
        clickables@.len() == *old(last_count) ==> (final(focused).ordered@ == old(focused).ordered@ && final(focused).entity
            == old(focused).entity && *final(last_count) == *old(last_count)),
        clickables@.len() != *old(last_count) ==> ({
            &&& *final(last_count) == clickables@.len()
            &&& final(focused).ordered@ == clickables@
            &&& final(focused).entity == (match old(focused).entity {
                Some(e) => if clickables@.contains(e) { Some(e) } else { None },
                None => None,
            })
        }),
{
    let count = clickables.len();
    if count == *last_count {
        return;
    }
    *last_count = count;
    focused.ordered = clickables.clone();
    assert(focused.ordered@ =~= clickables@);
    if let Some(e) = focused.entity {
        let mut found = false;
        let mut i: usize = 0;
        while i < focused.ordered.len()
            invariant
                i <= focused.ordered@.len(),
                found == (exists|j: int| 0 <= j < i && focused.ordered@[j] == e),
            decreases focused.ordered@.len() - i,
        {
            if focused.ordered[i] == e {
                found = true;
            }
            i = i + 1;
        }
        if !found {
            focused.entity = None;
        }
    }
}

/// The focus direction asked by this frame's intents: the last cycle intent
/// wins (1 for next, -1 for previous); 0 when there is none.
pub open spec fn cycle_direction(intents: Seq<InputIntent>) -> int
    decreases intents.len(),
{
    if intents.len() == 0 {
        0
    } else if intents.last() == InputIntent::CycleNext {
        1
    } else if intents.last() == InputIntent::CyclePrev {
        -1
    } else {
        cycle_direction(intents.drop_last())
    }
}

/// Predicate: the entity is `e`.
pub open spec fn is_entity(e: u64) -> spec_fn(u64) -> bool {
    |x: u64| x == e
}

/// Position of the focused entity in the focus order, or -1 when nothing
/// (or an entity not in the order) is focused.
pub open spec fn focus_index(ordered: Seq<u64>, entity: Option<u64>) -> int {
    match entity {
        Some(e) => first_index(ordered, is_entity(e)),
        None => -1,
    }
}

/// The entity focused after one step in direction `dir` (1 or -1) from
/// the focused entity, wrapping around the focus order.
pub open spec fn cycled(ordered: Seq<u64>, entity: Option<u64>, dir: int) -> u64 {
    ordered[(focus_index(ordered, entity) + dir) % (ordered.len() as int)]
}

/// No entity occurs twice in the focus order.
pub open spec fn distinct_entities(ordered: Seq<u64>) -> bool {
    forall|i: int, j: int| 0 <= i < ordered.len() && 0 <= j < ordered.len() && i != j ==> #[trigger] ordered[i] != #[trigger] ordered[j]
}

/// The direction is one of -1, 0, 1.
proof fn lemma_cycle_direction_range(intents: Seq<InputIntent>)
    ensures
        -1 <= cycle_direction(intents) <= 1,
    decreases intents.len(),
{
    if intents.len() > 0 {
        lemma_cycle_direction_range(intents.drop_last());
    }
}

/// Position of the first occurrence of `e` in `ordered`.
fn position_of(ordered: &Vec<u64>, e: u64) -> (r: Option<usize>)
    ensures
        match r {
            Some(k) => k < ordered@.len() && k as int == first_index(ordered@, is_entity(e)),
            None => first_index(ordered@, is_entity(e)) == -1,
        },
{
    let mut j: usize = 0;
    while j < ordered.len()
        invariant
            j <= ordered@.len(),
            forall|k: int| 0 <= k < j ==> !is_entity(e)(#[trigger] ordered@[k]),
        decreases ordered@.len() - j,
    {
        if ordered[j] == e {
            proof {
                lemma_first_index_is(ordered@, is_entity(e), j as int);
            }
            return Some(j);
        }
        j = j + 1;
    }
    proof {
        lemma_first_index_none(ordered@, is_entity(e));
    }
    None
}

/// Moves keyboard focus one step along the focus order, wrapping around, in
/// the direction of this frame's last cycle intent. An unfocused state counts
/// as position -1, so "next" then focuses the first entity and "previous" the
/// one before the last (the last when there is only one). Returns the
/// previously focused entity and the newly focused one, or `None` (changing
/// nothing) when no cycle intent came or there is nothing to focus.
pub fn handle_cycle_intent(intents: &Vec<InputIntent>, focused: &mut FocusedClickable) -> (r: Option<(Option<u64>, u64)>)
    ensures
        final(focused).ordered@ == old(focused).ordered@,
        (cycle_direction(intents@) == 0 || old(focused).ordered@.len() == 0) ==> (r is None && final(focused).entity
            == old(focused).entity),
        (cycle_direction(intents@) != 0 && old(focused).ordered@.len() > 0) ==> ({
            let next = cycled(old(focused).ordered@, old(focused).entity, cycle_direction(intents@));
            &&& r == Some((old(focused).entity, next))
            &&& final(focused).entity == Some(next)
        }),
{
    let mut dir: i8 = 0;
    let mut i: usize = 0;
    while i < intents.len()
        invariant
            i <= intents@.len(),
            dir as int == cycle_direction(intents@.take(i as int)),
        decreases intents@.len() - i,
    {
        assert(intents@.take(i + 1).drop_last() =~= intents@.take(i as int));
        match intents[i] {
            InputIntent::CycleNext => dir = 1,
            InputIntent::CyclePrev => dir = -1,
            _ => {},
        }
        i = i + 1;
    }
    assert(intents@.take(i as int) =~= intents@);
    proof {
        lemma_cycle_direction_range(intents@);
    }
    if dir == 0 || focused.ordered.len() == 0 {
        return None;
    }
    let len = focused.ordered.len();
    let prev = focused.entity;
    let current: Option<usize> = match prev {
        Some(e) => position_of(&focused.ordered, e),
        None => None,
    };
    let ghost cur = focus_index(focused.ordered@, prev);
    let ghost d = dir as int;
    assert(d == 1 || d == -1);
    let next: usize = match current {
        Some(k) => {
            if dir > 0 {
                if k + 1 == len {
                    assert((cur + d) % (len as int) == 0) by (nonlinear_arith)
                        requires cur + d == len, len > 0;
                    0
                } else {
                    assert((cur + d) % (len as int) == k + 1) by (nonlinear_arith)
                        requires cur + d == k + 1, 0 <= k + 1 < len;
                    k + 1
                }
            } else {
                if k == 0 {
                    assert((cur + d) % (len as int) == len - 1) by (nonlinear_arith)
                        requires cur + d == -1, len > 0;
                    len - 1
                } else {
                    assert((cur + d) % (len as int) == k - 1) by (nonlinear_arith)
                        requires cur + d == k - 1, 0 <= k - 1 < len;
                    k - 1
                }
            }
        },
        None => {
            if dir > 0 {
                assert((cur + d) % (len as int) == 0) by (nonlinear_arith)
                    requires cur + d == 0, len > 0;
                0
            } else if len == 1 {
                assert((cur + d) % (len as int) == 0) by (nonlinear_arith)
                    requires cur + d == -2, len == 1;
                0
            } else {
                assert((cur + d) % (len as int) == len - 2) by (nonlinear_arith)
                    requires cur + d == -2, len > 1;
                len - 2
            }
        },
    };
    let e = focused.ordered[next];
    focused.entity = Some(e);
    Some((prev, e))
}

/// A step forward then back (or back then forward) around `len` positions
/// returns to position `k`, and each step stays within the positions.
proof fn lemma_step_round_trip(k: int, len: int)
    requires
        0 <= k < len,
    ensures
        0 <= (k + 1) % len < len,
        0 <= (k - 1) % len < len,
        (((k + 1) % len) - 1) % len == k,
        (((k - 1) % len) + 1) % len == k,
{
    if k + 1 == len {
        assert((k + 1) % len == 0) by (nonlinear_arith)
            requires
                k + 1 == len,
                len > 0,
        ;
        assert((0 - 1) % len == len - 1) by (nonlinear_arith)
            requires
                len > 0,
        ;
    } else {
        assert((k + 1) % len == k + 1) by (nonlinear_arith)
            requires
                0 <= k + 1 < len,
        ;
        assert(k % len == k) by (nonlinear_arith)
            requires
                0 <= k < len,
        ;
    }
    if k == 0 {
        assert((0 - 1) % len == len - 1) by (nonlinear_arith)
            requires
                len > 0,
        ;
        assert(len % len == 0) by (nonlinear_arith)
            requires
                len > 0,
        ;
    } else {
        assert((k - 1) % len == k - 1) by (nonlinear_arith)
            requires
                0 <= k - 1 < len,
        ;
        assert(k % len == k) by (nonlinear_arith)
            requires
                0 <= k < len,
        ;
    }
}


/// Law: when the focus order holds each entity once, cycling forward then
/// backward (or backward then forward) from a focused entity in the order
/// comes back to it.
pub proof fn law_cycle_round_trip(ordered: Seq<u64>, e: u64)
    requires
        distinct_entities(ordered),
        ordered.contains(e),
    ensures
        cycled(ordered, Some(cycled(ordered, Some(e), 1)), -1) == e,
        cycled(ordered, Some(cycled(ordered, Some(e), -1)), 1) == e,
{
    let len = ordered.len() as int;
    lemma_first_index(ordered, is_entity(e));
    let w = choose|i: int| 0 <= i < len && ordered[i] == e;
    assert(is_entity(e)(ordered[w]));
    let k = focus_index(ordered, Some(e));
    assert(0 <= k < len && ordered[k] == e);
    lemma_step_round_trip(k, len);
    let steps = seq![1int, -1int];
    assert forall|t: int| 0 <= t < 2 implies cycled(ordered, Some(cycled(ordered, Some(e), #[trigger] steps[t])), -steps[t]) == e by {
        let n = (k + steps[t]) % len;
        let f = ordered[n];
        assert(cycled(ordered, Some(e), steps[t]) == f);
        assert forall|j: int| 0 <= j < n implies !is_entity(f)(#[trigger] ordered[j]) by {
            assert(ordered[j] != ordered[n]);
        }
        lemma_first_index_is(ordered, is_entity(f), n);
        assert(focus_index(ordered, Some(f)) == n);
    }
    assert(steps[0] == 1 && steps[1] == -1);
}

/// Law: which intents a frame's input produces. Back comes from the back
/// key with the keyboard free or the right button with the pointer free;
/// return-to-center and pause come from their keys with the keyboard free,
/// in any game state; Tab cycles (backward with Shift) and Enter confirms
/// only with the keyboard free and outside overlays. Nothing else comes.
pub proof fn law_intents_from_input(raw: RawInput, overlay: bool)
    ensures
        intents_for(raw, overlay).contains(InputIntent::CancelOrBack) <==> ((raw.keyboard_free && raw.back_pressed) || (
        raw.pointer_free && raw.right_click)),
        intents_for(raw, overlay).contains(InputIntent::ReturnToCenter) <==> (raw.keyboard_free && raw.center_pressed),
        intents_for(raw, overlay).contains(InputIntent::TogglePause) <==> (raw.keyboard_free && raw.pause_pressed),
        intents_for(raw, overlay).contains(InputIntent::CycleNext) <==> (raw.keyboard_free && !overlay && raw.cycle_pressed
            && !raw.shift_held),
        intents_for(raw, overlay).contains(InputIntent::CyclePrev) <==> (raw.keyboard_free && !overlay && raw.cycle_pressed
            && raw.shift_held),
        intents_for(raw, overlay).contains(InputIntent::ConfirmFocused) <==> (raw.keyboard_free && !overlay
            && raw.confirm_pressed),
{
    let s = intents_for(raw, overlay);
    let s0 = Seq::<InputIntent>::empty();
    let s1 = if raw.keyboard_free && raw.back_pressed { s0.push(InputIntent::CancelOrBack) } else { s0 };
    let s2 = if raw.pointer_free && raw.right_click { s1.push(InputIntent::CancelOrBack) } else { s1 };
    let s3 = if raw.keyboard_free && raw.center_pressed { s2.push(InputIntent::ReturnToCenter) } else { s2 };
    let s4 = if raw.keyboard_free && raw.pause_pressed { s3.push(InputIntent::TogglePause) } else { s3 };
    let s5 = if raw.keyboard_free && !overlay && raw.cycle_pressed {
        s4.push(if raw.shift_held { InputIntent::CyclePrev } else { InputIntent::CycleNext })
    } else {
        s4
    };
    assert(s == (if raw.keyboard_free && !overlay && raw.confirm_pressed { s5.push(InputIntent::ConfirmFocused) } else { s5 }));
    assert forall|x: InputIntent| #[trigger] s.contains(x) <==> ((x == InputIntent::CancelOrBack && ((raw.keyboard_free
        && raw.back_pressed) || (raw.pointer_free && raw.right_click))) || (x == InputIntent::ReturnToCenter
        && raw.keyboard_free && raw.center_pressed) || (x == InputIntent::TogglePause && raw.keyboard_free
        && raw.pause_pressed) || (x == InputIntent::CycleNext && raw.keyboard_free && !overlay && raw.cycle_pressed
        && !raw.shift_held) || (x == InputIntent::CyclePrev && raw.keyboard_free && !overlay && raw.cycle_pressed
        && raw.shift_held) || (x == InputIntent::ConfirmFocused && raw.keyboard_free && !overlay && raw.confirm_pressed))
        by {
        if s.contains(x) {
            let j = choose|j: int| 0 <= j < s.len() && s[j] == x;
            assert(s[j] == x);
        } else {
            if x == InputIntent::CancelOrBack && raw.keyboard_free && raw.back_pressed {
                assert(s[0] == x);
            }
            if x == InputIntent::CancelOrBack && raw.pointer_free && raw.right_click {
                assert(s[s1.len() as int] == x);
            }
            if x == InputIntent::ReturnToCenter && raw.keyboard_free && raw.center_pressed {
                assert(s[s2.len() as int] == x);
            }
            if x == InputIntent::TogglePause && raw.keyboard_free && raw.pause_pressed {
                assert(s[s3.len() as int] == x);
            }
            if raw.keyboard_free && !overlay && raw.cycle_pressed && (x == InputIntent::CycleNext || x
                == InputIntent::CyclePrev) {
                assert(s[s4.len() as int] == (if raw.shift_held { InputIntent::CyclePrev } else { InputIntent::CycleNext }));
            }
            if x == InputIntent::ConfirmFocused && raw.keyboard_free && !overlay && raw.confirm_pressed {
                assert(s[s5.len() as int] == x);
            }
        }
    }
}

} // verus!
