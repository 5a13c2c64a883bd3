use vstd::prelude::*;
use crate::buttons::{buttons_after, static_rect_button};
use crate::cables::{all_connected_spec, after_move, CursorIcon};
use crate::laws::{law_new_round_deals_each_cable_once, law_shown_requests_stay_unique};
use crate::rules::{CLICK_RESET_TEXT, CONNECT_ALL_TEXT, MAIN_SCREEN, NO_OBJECT, SETTINGS_SCREEN};
use crate::setup::picks_within;
use crate::sliders::{slider_stepped, static_rect_slider};
use crate::state::{
    cables_moved, checked, closed_settings, dealt, hovered_state, opened_settings,
    plug_snaps, plugged, redealt_count, requested_with, settings_clicked, texts_shown, GameView,
};
use crate::texts::{ids_after, remove_first, remove_first_n, texts_after};

verus! {

/// One event of the game, as the library's operations handle it: a frame
/// of dragging, of hovering, one plug test, a check, a new round, switching
/// screens, a frame of messages, the settings clicks, or a frame of the
/// main buttons, the settings buttons or the sliders.
pub enum GameEvent {
    Move { hovered: Seq<bool>, pressed: bool },
    Hover { hovered: Seq<bool>, pressed: bool },
    Plug { cursor: CursorIcon, dest: int, object: int, rects_overlap: bool },
    Check,
    Deal { pick: usize, moves: Seq<usize> },
    OpenSettings,
    CloseSettings,
    ShowTexts,
    SettingsClicks { sliders: Seq<i32>, buttons: Seq<i32> },
    MainButtonsFrame { hovered: Seq<bool>, pressed: bool, cursor: CursorIcon },
    SettingsButtonsFrame { hovered: Seq<bool>, pressed: bool, cursor: CursorIcon },
    SlidersFrame { hovered: Seq<bool>, pressed: bool },
}

/// `new` is `old` after event `e`: each case is the `ensures` of the
/// operation that handles it.
pub open spec fn event_result(old: GameView, new: GameView, e: GameEvent) -> bool {
    match e {
        GameEvent::Move { hovered, pressed } => hovered.len() == old.objects.len() && cables_moved(
            old,
            new,
            hovered,
            pressed,
        ),
        GameEvent::Hover { hovered, pressed } => hovered.len() == old.objects.len() && new
            =~= hovered_state(old, hovered, pressed),
        GameEvent::Plug { cursor, dest, object, rects_overlap } => {
            &&& 0 <= dest < old.dests.len()
            &&& 0 <= object < old.objects.len()
            &&& new =~= plugged(old, cursor, dest, object, rects_overlap)
        },
        GameEvent::Check => new =~= checked(old),
        GameEvent::Deal { pick, moves } => picks_within(moves, redealt_count(old)) && dealt(
            old,
            new,
            pick,
            moves,
        ),
        GameEvent::OpenSettings => new =~= opened_settings(old),
        GameEvent::CloseSettings => new =~= closed_settings(old),
        GameEvent::ShowTexts => new =~= texts_shown(old),
        GameEvent::SettingsClicks { sliders, buttons } => settings_clicked(old, new, sliders, buttons),
        GameEvent::MainButtonsFrame { hovered, pressed, cursor } => {
            &&& hovered.len() == old.buttons.len()
            &&& new =~= GameView { buttons: buttons_after(old.buttons, hovered, pressed, cursor), ..old }
        },
        GameEvent::SettingsButtonsFrame { hovered, pressed, cursor } => {
            &&& hovered.len() == old.settings_buttons.len()
            &&& new =~= GameView {
                settings_buttons: buttons_after(old.settings_buttons, hovered, pressed, cursor),
                ..old
            }
        },
        GameEvent::SlidersFrame { hovered, pressed } => {
            &&& hovered.len() == old.sliders.len()
            &&& new =~= GameView { sliders: new.sliders, ..old }
            &&& new.sliders.len() == old.sliders.len()
            &&& forall|i: int|
                0 <= i < old.sliders.len() ==> slider_stepped(
                    old.sliders[i],
                    #[trigger] new.sliders[i],
                    hovered[i],
                    pressed,
                )
        },
    }
}

// ---------------------------------------------------------------------------
// Sockets hold real cables
// ---------------------------------------------------------------------------

/// Every socket is empty or holds the id of one of the game's cables.
pub open spec fn sockets_sound(v: GameView) -> bool {
    forall|i: int|
        0 <= i < v.dests.len() && (#[trigger] v.dests[i]).connected != NO_OBJECT ==> exists|k: int|
            0 <= k < v.objects.len() && (#[trigger] v.objects[k]).object_id == v.dests[i].connected
}

/// Every event keeps every socket empty or holding one of the game's cables.
pub proof fn law_sockets_hold_real_cables(old: GameView, new: GameView, e: GameEvent)
    requires
        event_result(old, new, e),
        sockets_sound(old),
    ensures
        sockets_sound(new),
{
    match e {
        GameEvent::Move { hovered, pressed } => {
            if !old.pause && old.dests.len() > 0 {
                assert forall|i: int|
                    0 <= i < new.dests.len() && (#[trigger] new.dests[i]).connected != NO_OBJECT implies exists|k: int|
                        0 <= k < new.objects.len() && (#[trigger] new.objects[k]).object_id
                            == new.dests[i].connected by {
                    assert(new.dests[i].connected == old.dests[i].connected);
                    let k = choose|k: int|
                        0 <= k < old.objects.len() && (#[trigger] old.objects[k]).object_id
                            == old.dests[i].connected;
                    assert(new.objects[k] == after_move(old.objects[k], old.object_grabbed, hovered[k], pressed));
                }
            }
        },
        GameEvent::Plug { cursor, dest, object, rects_overlap } => {
            assert forall|i: int|
                0 <= i < new.dests.len() && (#[trigger] new.dests[i]).connected != NO_OBJECT implies exists|k: int|
                    0 <= k < new.objects.len() && (#[trigger] new.objects[k]).object_id
                        == new.dests[i].connected by {
                if i == dest && plug_snaps(old, cursor, dest, rects_overlap) {
                    assert(new.objects[object].object_id == new.dests[i].connected);
                } else {
                    assert(new.dests[i] == old.dests[i]);
                    let k = choose|k: int|
                        0 <= k < old.objects.len() && (#[trigger] old.objects[k]).object_id
                            == old.dests[i].connected;
                    assert(new.objects[k] == old.objects[k]);
                }
            }
        },
        GameEvent::Deal { pick, moves } => {
            law_new_round_deals_each_cable_once(old, new, pick, moves);
        },
        _ => {
            assert(new.dests == old.dests && new.objects == old.objects);
        },
    }
}

// ---------------------------------------------------------------------------
// The screen
// ---------------------------------------------------------------------------

/// The game shows the main screen or the settings screen, and only the
/// settings button switches between them: opening sets the settings screen,
/// closing (directly or by the settings screen's button) the main screen.
pub proof fn law_screen_switches_only_by_settings_button(old: GameView, new: GameView, e: GameEvent)
    requires
        event_result(old, new, e),
        old.show_mode == MAIN_SCREEN || old.show_mode == SETTINGS_SCREEN,
    ensures
        new.show_mode == MAIN_SCREEN || new.show_mode == SETTINGS_SCREEN,
        new.show_mode != old.show_mode ==> (e is OpenSettings || e is CloseSettings || e is SettingsClicks),
        e is OpenSettings ==> new.show_mode == SETTINGS_SCREEN,
        e is CloseSettings ==> new.show_mode == MAIN_SCREEN,
        (e matches GameEvent::SettingsClicks { sliders, buttons }) ==> new.show_mode != old.show_mode
            ==> new.show_mode == MAIN_SCREEN,
{
}

// ---------------------------------------------------------------------------
// A checked board stays frozen, and points move only by a check
// ---------------------------------------------------------------------------

/// After a scoring check the board is frozen until a new round: while the
/// game is paused with every socket filled, no event but a new round
/// moves a cable, changes a socket, unpauses the game or changes the points.
pub proof fn law_checked_board_stays_frozen(old: GameView, new: GameView, e: GameEvent)
    requires
        event_result(old, new, e),
        old.pause,
        all_connected_spec(old.dests),
        !(e is Deal),
    ensures
        new.pause,
        new.points == old.points,
        new.objects == old.objects,
        new.dests == old.dests,
        all_connected_spec(new.dests),
{
    match e {
        GameEvent::Plug { cursor, dest, object, rects_overlap } => {
            assert(old.dests[dest].connected != NO_OBJECT);
            assert(new.dests =~= old.dests);
        },
        _ => {},
    }
}

/// The points change only by a check of an unpaused game with every socket
/// filled, which pauses it; only a new round unpauses a paused game.
pub proof fn law_points_change_only_by_a_check(old: GameView, new: GameView, e: GameEvent)
    requires
        event_result(old, new, e),
    ensures
        new.points != old.points ==> e is Check && !old.pause && all_connected_spec(old.dests)
            && new.pause,
        old.pause && !new.pause ==> e is Deal,
{
}

// ---------------------------------------------------------------------------
// Requests
// ---------------------------------------------------------------------------

/// The requests hold no id twice, and only the two messages.
pub open spec fn requests_sound(v: GameView) -> bool {
    &&& v.requested.no_duplicates()
    &&& forall|i: int|
        0 <= i < v.requested.len() ==> #[trigger] v.requested[i] == CONNECT_ALL_TEXT
            || v.requested[i] == CLICK_RESET_TEXT
}

/// Taking out the first `v` keeps only items that were there.
proof fn lemma_remove_first_keeps_items(s: Seq<i32>, v: i32, x: i32)
    ensures
        remove_first(s, v).contains(x) ==> s.contains(x),
{
    if s.contains(v) && remove_first(s, v).contains(x) {
        let f = crate::texts::first_index(s, v);
        crate::texts::lemma_first_index(s, v);
        let r = s.remove(f);
        let i = choose|i: int| 0 <= i < r.len() && r[i] == x;
        if i < f {
            assert(s[i] == x);
        } else {
            assert(s[i + 1] == x);
        }
    }
}

/// Taking out the first `v` several times keeps only items that were there.
proof fn lemma_remove_first_n_keeps_items(s: Seq<i32>, v: i32, n: nat, x: i32)
    ensures
        remove_first_n(s, v, n).contains(x) ==> s.contains(x),
    decreases n,
{
    if n > 0 {
        lemma_remove_first_n_keeps_items(s, v, (n - 1) as nat, x);
        lemma_remove_first_keeps_items(remove_first_n(s, v, (n - 1) as nat), v, x);
    }
}

/// A frame of messages keeps only requests that were there.
proof fn lemma_shown_keeps_items(
    texts: Seq<crate::texts::text_time>,
    ids: Seq<i32>,
    shown: Seq<i32>,
    x: i32,
)
    ensures
        ids_after(texts, ids, shown).contains(x) ==> ids.contains(x),
    decreases shown.len(),
{
    if shown.len() > 0 {
        lemma_shown_keeps_items(texts, ids, shown.drop_last(), x);
        lemma_remove_first_n_keeps_items(
            ids_after(texts, ids, shown.drop_last()),
            shown.last(),
            crate::texts::expiring(texts_after(texts, shown.drop_last()), shown.last()),
            x,
        );
    }
}

/// Every event keeps the requests free of repeats and made of the two
/// messages only.
pub proof fn law_requests_stay_sound(old: GameView, new: GameView, e: GameEvent)
    requires
        event_result(old, new, e),
        requests_sound(old),
    ensures
        requests_sound(new),
{
    match e {
        GameEvent::Check => {
            crate::laws::law_requests_stay_unique(old.requested, CONNECT_ALL_TEXT);
            crate::laws::law_requests_stay_unique(old.requested, CLICK_RESET_TEXT);
            let r = new.requested;
            assert forall|i: int| 0 <= i < r.len() implies #[trigger] r[i] == CONNECT_ALL_TEXT || r[i]
                == CLICK_RESET_TEXT by {
                if i < old.requested.len() {
                    assert(r[i] == old.requested[i]);
                }
            }
        },
        GameEvent::ShowTexts => {
            law_shown_requests_stay_unique(old.texts, old.requested, old.requested);
            let r = new.requested;
            assert forall|i: int| 0 <= i < r.len() implies #[trigger] r[i] == CONNECT_ALL_TEXT || r[i]
                == CLICK_RESET_TEXT by {
                lemma_shown_keeps_items(old.texts, old.requested, old.requested, r[i]);
                assert(r.contains(r[i]));
                let k = choose|k: int| 0 <= k < old.requested.len() && old.requested[k] == r[i];
            }
        },
        _ => {
            assert(new.requested == old.requested);
        },
    }
}

// ---------------------------------------------------------------------------
// Repeated calls
// ---------------------------------------------------------------------------

/// Call `k` of a run of `draw_sliders` calls took slider state `states[k]`
/// to `states[k + 1]` (as `draw_sliders` states for each slider).
pub open spec fn slider_step_ok(states: Seq<static_rect_slider>, hovered: Seq<bool>, pressed: Seq<bool>, k: int) -> bool {
    slider_stepped(states[k], states[k + 1], hovered[k], pressed[k])
}

/// `states` are one slider's states over a run of calls.
pub open spec fn slider_calls(states: Seq<static_rect_slider>, hovered: Seq<bool>, pressed: Seq<bool>) -> bool {
    forall|k: int| 0 <= k < states.len() - 1 ==> #[trigger] slider_step_ok(states, hovered, pressed, k)
}

proof fn lemma_slider_wait(states: Seq<static_rect_slider>, hovered: Seq<bool>, pressed: Seq<bool>, k: int)
    requires
        slider_calls(states, hovered, pressed),
        0 <= k < states.len(),
        0 <= k <= states[0].clicked_wait,
    ensures
        states[k].clicked_wait == states[0].clicked_wait - k,
    decreases k,
{
    if k > 0 {
        lemma_slider_wait(states, hovered, pressed, k - 1);
        assert(slider_step_ok(states, hovered, pressed, k - 1));
    }
}

/// After a click a slider waits: when its wait is `w` (300 right after a
/// click), it is not clicked in any of the next `w` calls, whatever the
/// input, its wait counting down by one each call; then it can be clicked again.
pub proof fn law_slider_click_cooldown(states: Seq<static_rect_slider>, hovered: Seq<bool>, pressed: Seq<bool>)
    requires
        slider_calls(states, hovered, pressed),
        states.len() > 0,
        0 <= states[0].clicked_wait,
    ensures
        forall|k: int|
            0 <= k < states.len() && k <= states[0].clicked_wait ==> #[trigger] states[k].clicked_wait
                == states[0].clicked_wait - k,
        forall|k: int|
            0 <= k < states.len() && k < states[0].clicked_wait ==> !crate::sliders::slider_clicked(
                #[trigger] states[k],
                hovered[k],
                pressed[k],
            ),
{
    assert forall|k: int|
        0 <= k < states.len() && k <= states[0].clicked_wait implies #[trigger] states[k].clicked_wait
            == states[0].clicked_wait - k by {
        lemma_slider_wait(states, hovered, pressed, k);
    }
    assert forall|k: int|
        0 <= k < states.len() && k < states[0].clicked_wait implies !crate::sliders::slider_clicked(
            #[trigger] states[k],
            hovered[k],
            pressed[k],
        ) by {
        lemma_slider_wait(states, hovered, pressed, k);
    }
}

/// Where the knob of a slider in state `on` stands `k` calls after `f`.
pub open spec fn knob_after(f: int, on: bool, k: int) -> int {
    if on {
        if f + k < crate::rules::SLIDER_MAX_FRAMES {
            f + k
        } else {
            crate::rules::SLIDER_MAX_FRAMES as int
        }
    } else {
        if f - k > 0 {
            f - k
        } else {
            0
        }
    }
}

proof fn lemma_knob(states: Seq<static_rect_slider>, hovered: Seq<bool>, pressed: Seq<bool>, k: int)
    requires
        slider_calls(states, hovered, pressed),
        0 <= k < states.len(),
        0 <= states[0].frames <= crate::rules::SLIDER_MAX_FRAMES,
    ensures
        states[k].going_mode_on == states[0].going_mode_on,
        states[k].frames == knob_after(states[0].frames as int, states[0].going_mode_on, k),
    decreases k,
{
    if k > 0 {
        lemma_knob(states, hovered, pressed, k - 1);
        assert(slider_step_ok(states, hovered, pressed, k - 1));
    }
}

/// A knob between its ends moves one frame per call towards the end its
/// state points to and stays there: after `k` calls it stands at
/// `min(f + k, 300)` when on and at `max(f - k, 0)` when off, so it reaches
/// its end within 300 calls.
pub proof fn law_knob_travels_to_its_end(states: Seq<static_rect_slider>, hovered: Seq<bool>, pressed: Seq<bool>)
    requires
        slider_calls(states, hovered, pressed),
        states.len() > 0,
        0 <= states[0].frames <= crate::rules::SLIDER_MAX_FRAMES,
    ensures
        forall|k: int|
            0 <= k < states.len() ==> (#[trigger] states[k]).frames == knob_after(
                states[0].frames as int,
                states[0].going_mode_on,
                k,
            ),
{
    assert forall|k: int| 0 <= k < states.len() implies (#[trigger] states[k]).frames == knob_after(
        states[0].frames as int,
        states[0].going_mode_on,
        k,
    ) by {
        lemma_knob(states, hovered, pressed, k);
    }
}

/// Call `k` of a run of `manage_all_buttons` calls took the row `states[k]`
/// to `states[k + 1]`.
pub open spec fn buttons_step_ok(
    states: Seq<Seq<static_rect_button>>,
    hovered: Seq<Seq<bool>>,
    pressed: Seq<bool>,
    cursor: Seq<CursorIcon>,
    k: int,
) -> bool {
    &&& hovered[k].len() == states[k].len()
    &&& states[k + 1] == buttons_after(states[k], hovered[k], pressed[k], cursor[k])
}

/// `states` are a row of buttons over a run of calls.
pub open spec fn buttons_calls(
    states: Seq<Seq<static_rect_button>>,
    hovered: Seq<Seq<bool>>,
    pressed: Seq<bool>,
    cursor: Seq<CursorIcon>,
) -> bool {
    forall|k: int| 0 <= k < states.len() - 1 ==> #[trigger] buttons_step_ok(states, hovered, pressed, cursor, k)
}

proof fn lemma_button_countdown(
    states: Seq<Seq<static_rect_button>>,
    hovered: Seq<Seq<bool>>,
    pressed: Seq<bool>,
    cursor: Seq<CursorIcon>,
    i: int,
    k: int,
)
    requires
        buttons_calls(states, hovered, pressed, cursor),
        0 <= k < states.len(),
        0 <= i < states[0].len(),
        0 <= k < states[0][i].clicked_frames,
    ensures
        states[k].len() == states[0].len(),
        states[k][i].clicked_frames == states[0][i].clicked_frames - k,
        states[k][i].button_id == states[0][i].button_id,
    decreases k,
{
    if k > 0 {
        lemma_button_countdown(states, hovered, pressed, cursor, i, k - 1);
        assert(buttons_step_ok(states, hovered, pressed, cursor, k - 1));
    }
}

/// A button with `c` frames of count-down (120 right after a click) takes
/// no click in any of the next `c - 1` calls of `manage_all_buttons`,
/// whatever the input; its count-down drops by one each call, so the
/// `c`-th call can click it again.
pub proof fn law_button_not_clicked_during_countdown(
    states: Seq<Seq<static_rect_button>>,
    hovered: Seq<Seq<bool>>,
    pressed: Seq<bool>,
    cursor: Seq<CursorIcon>,
    i: int,
)
    requires
        buttons_calls(states, hovered, pressed, cursor),
        states.len() > 0,
        0 <= i < states[0].len(),
        states[0][i].clicked_frames > 0,
    ensures
        forall|k: int|
            0 <= k < states.len() && k < states[0][i].clicked_frames ==> (#[trigger] states[k])[i].clicked_frames
                == states[0][i].clicked_frames - k,
        forall|k: int|
            0 <= k < states.len() - 1 && k < states[0][i].clicked_frames - 1 ==> !crate::buttons::button_clicked(
                (#[trigger] states[k])[i],
                hovered[k][i],
                pressed[k],
                cursor[k],
            ),
{
    assert forall|k: int|
        0 <= k < states.len() && k < states[0][i].clicked_frames implies (#[trigger] states[k])[i].clicked_frames
            == states[0][i].clicked_frames - k by {
        lemma_button_countdown(states, hovered, pressed, cursor, i, k);
    }
    assert forall|k: int|
        0 <= k < states.len() - 1 && k < states[0][i].clicked_frames - 1 implies !crate::buttons::button_clicked(
            (#[trigger] states[k])[i],
            hovered[k][i],
            pressed[k],
            cursor[k],
        ) by {
        lemma_button_countdown(states, hovered, pressed, cursor, i, k);
    }
}

/// Call `k` of a run of `manage_requested_text` calls took the messages and
/// requests `texts[k]`, `ids[k]` to `texts[k + 1]`, `ids[k + 1]`.
pub open spec fn texts_step_ok(texts: Seq<Seq<crate::texts::text_time>>, ids: Seq<Seq<i32>>, k: int) -> bool {
    &&& texts[k + 1] == texts_after(texts[k], ids[k])
    &&& ids[k + 1] == ids_after(texts[k], ids[k], ids[k])
}

proof fn lemma_message_run(
    texts: Seq<Seq<crate::texts::text_time>>,
    ids: Seq<Seq<i32>>,
    id: i32,
    j: int,
    k: int,
)
    requires
        texts.len() == ids.len(),
        forall|q: int| 0 <= q < texts.len() - 1 ==> #[trigger] texts_step_ok(texts, ids, q),
        ids[0] == seq![id],
        0 <= j < texts[0].len(),
        texts[0][j].text_id == id,
        forall|q: int| 0 <= q < texts[0].len() && q != j ==> (#[trigger] texts[0][q]).text_id != id,
        1 <= texts[0][j].time_count,
        0 <= k < texts.len(),
        k < texts[0][j].time_count,
    ensures
        ids[k] == seq![id],
        texts[k].len() == texts[0].len(),
        texts[k][j].time_count == texts[0][j].time_count - k,
        texts[k][j].time_static == texts[0][j].time_static,
        texts[k][j].text_id == id,
        forall|q: int| 0 <= q < texts[k].len() && q != j ==> (#[trigger] texts[k][q]).text_id != id,
    decreases k,
{
    if k > 0 {
        lemma_message_run(texts, ids, id, j, k - 1);
        assert(texts_step_ok(texts, ids, k - 1));
        crate::laws::law_requested_message_counts_down(texts[k - 1], id, j);
        assert forall|q: int| 0 <= q < texts[k].len() && q != j implies (#[trigger] texts[k][q]).text_id != id by {
            assert(texts[k][q] == texts[k - 1][q]);
        }
    }
}

/// A message requested alone, and the only one with its id, with `n`
/// frames left (`n >= 1`) stays requested through the first `n - 1` calls
/// of `manage_requested_text`, its count-down dropping by one each call;
/// the `n`-th call takes the request away and winds the count-down up to
/// the full time: the message shows for exactly `n` calls.
pub proof fn law_requested_message_shows_n_frames(
    texts: Seq<Seq<crate::texts::text_time>>,
    ids: Seq<Seq<i32>>,
    id: i32,
    j: int,
)
    requires
        texts.len() == ids.len(),
        forall|q: int| 0 <= q < texts.len() - 1 ==> #[trigger] texts_step_ok(texts, ids, q),
        ids[0] == seq![id],
        0 <= j < texts[0].len(),
        texts[0][j].text_id == id,
        forall|q: int| 0 <= q < texts[0].len() && q != j ==> (#[trigger] texts[0][q]).text_id != id,
        1 <= texts[0][j].time_count,
        texts[0][j].time_count < texts.len(),
    ensures
        forall|k: int|
            0 <= k < texts[0][j].time_count ==> #[trigger] ids[k] == seq![id] && texts[k][j].time_count
                == texts[0][j].time_count - k,
        ids[texts[0][j].time_count as int] == Seq::<i32>::empty(),
        texts[texts[0][j].time_count as int][j].time_count == texts[0][j].time_static,
{
    let n = texts[0][j].time_count as int;
    assert forall|k: int| 0 <= k < n implies #[trigger] ids[k] == seq![id] && texts[k][j].time_count
        == texts[0][j].time_count - k by {
        lemma_message_run(texts, ids, id, j, k);
    }
    lemma_message_run(texts, ids, id, j, n - 1);
    assert(texts_step_ok(texts, ids, n - 1));
    crate::laws::law_requested_message_counts_down(texts[n - 1], id, j);
}

} // verus!
