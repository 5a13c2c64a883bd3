use vstd::prelude::*;
use crate::buttons::{button_clicked, buttons_after, clicked_ids, static_rect_button};
use crate::cables::{all_connected_spec, any_hovered, cursor_for, CursorIcon};
use crate::game_laws::{
    event_result, law_requests_stay_sound, law_sockets_hold_real_cables, requests_sound,
    sockets_sound, GameEvent,
};
use crate::rules::{
    BUTTON_CLICK_FRAMES, CHECK_BUTTON, MAIN_SCREEN, RESET_BUTTON, SETTINGS_BUTTON, SETTINGS_SCREEN,
};
use crate::state::{
    after_main_buttons, cables_moved, checked, dealt, hovered_state, main_buttons_result,
    opened_settings, plugged, pressed_id, redealt_count, settings_clicked, settings_result,
    settings_ticked, texts_shown, GameView,
};

verus! {

/// One plug test of a frame: socket `dest` against cable `object`, and
/// whether their rectangles overlapped when tested.
pub struct PlugTry {
    pub dest: int,
    pub object: int,
    pub rects_overlap: bool,
}

/// What one frame read and the game after each of its parts, in the order
/// the frame runs them: on the main screen the cables are dragged, then
/// hovered, then each plug test is made, then the buttons tick and their
/// clicks are handled, then the requested messages are shown; and if the
/// settings screen is up after that, its sliders and buttons tick and their
/// clicks are handled.
pub struct FrameTrace {
    pub pressed: bool,
    pub move_hovered: Seq<bool>,
    pub hover_hovered: Seq<bool>,
    pub plugs: Seq<PlugTry>,
    pub button_hovered: Seq<bool>,
    pub pick: usize,
    pub moves: Seq<usize>,
    pub slider_hovered: Seq<bool>,
    pub settings_button_hovered: Seq<bool>,
    pub settings_cursor: CursorIcon,
    pub moved: GameView,
    pub hovered: GameView,
    pub plugged: Seq<GameView>,
    pub buttons_done: GameView,
    pub shown: GameView,
}

/// The cursor the frame sets when it hovers the cables.
pub open spec fn frame_cursor(f: FrameTrace) -> CursorIcon {
    cursor_for(any_hovered(f.hover_hovered), f.pressed)
}

/// The game after the frame's plug tests.
pub open spec fn after_plugs(f: FrameTrace) -> GameView {
    f.plugged[f.plugs.len() as int]
}

/// The ids the main screen's buttons report in the frame.
pub open spec fn main_clicked(f: FrameTrace) -> Seq<i32> {
    clicked_ids(after_plugs(f).buttons, f.button_hovered, f.pressed, frame_cursor(f))
}

/// The ids the settings screen's buttons report in the frame.
pub open spec fn settings_clicked_in(f: FrameTrace) -> Seq<i32> {
    clicked_ids(f.shown.settings_buttons, f.settings_button_hovered, f.pressed, f.settings_cursor)
}

/// Plug test `k` of the frame, as `plug_cable` states it.
pub open spec fn plug_step_ok(f: FrameTrace, k: int) -> bool {
    let t = f.plugs[k];
    &&& 0 <= t.dest < f.plugged[k].dests.len()
    &&& 0 <= t.object < f.plugged[k].objects.len()
    &&& f.plugged[k + 1] =~= plugged(f.plugged[k], frame_cursor(f), t.dest, t.object, t.rects_overlap)
}

/// The main screen's part of a frame, from `start`.
pub open spec fn main_part_ok(start: GameView, f: FrameTrace) -> bool {
    &&& f.move_hovered.len() == start.objects.len()
    &&& cables_moved(start, f.moved, f.move_hovered, f.pressed)
    &&& f.hover_hovered.len() == f.moved.objects.len()
    &&& f.hovered =~= hovered_state(f.moved, f.hover_hovered, f.pressed)
    &&& f.plugged.len() == f.plugs.len() + 1
    &&& f.plugged[0] =~= f.hovered
    &&& forall|k: int| 0 <= k < f.plugs.len() ==> #[trigger] plug_step_ok(f, k)
    &&& main_buttons_result(
        after_plugs(f),
        f.buttons_done,
        f.button_hovered,
        f.pressed,
        frame_cursor(f),
        f.pick,
        f.moves,
    )
    &&& f.button_hovered.len() == after_plugs(f).buttons.len()
    &&& if f.buttons_done.requested.len() > 0 {
        f.shown =~= texts_shown(f.buttons_done)
    } else {
        f.shown =~= f.buttons_done
    }
}

/// `end` is `start` after one frame of the game traced by `f`.
pub open spec fn frame_ok(start: GameView, end: GameView, f: FrameTrace) -> bool {
    &&& if start.show_mode == MAIN_SCREEN {
        main_part_ok(start, f)
    } else {
        f.shown =~= start
    }
    &&& if f.shown.show_mode == SETTINGS_SCREEN {
        f.settings_button_hovered.len() == f.shown.settings_buttons.len() && settings_result(
            f.shown,
            end,
            f.slider_hovered,
            f.settings_button_hovered,
            f.pressed,
            f.settings_cursor,
        )
    } else {
        end =~= f.shown
    }
}

// ---------------------------------------------------------------------------
// Facts about each part
// ---------------------------------------------------------------------------

/// What the plug tests keep: everything but the sockets; the sockets stay
/// sound, and a fully connected connector does not change at all.
proof fn lemma_plugs(f: FrameTrace, k: int)
    requires
        f.plugged.len() == f.plugs.len() + 1,
        forall|q: int| 0 <= q < f.plugs.len() ==> #[trigger] plug_step_ok(f, q),
        0 <= k <= f.plugs.len(),
    ensures
        f.plugged[k] =~= (GameView { dests: f.plugged[k].dests, ..f.plugged[0] }),
        f.plugged[k].dests.len() == f.plugged[0].dests.len(),
        sockets_sound(f.plugged[0]) ==> sockets_sound(f.plugged[k]),
        all_connected_spec(f.plugged[0].dests) ==> f.plugged[k].dests =~= f.plugged[0].dests,
    decreases k,
{
    if k > 0 {
        lemma_plugs(f, k - 1);
        assert(plug_step_ok(f, k - 1));
        let t = f.plugs[k - 1];
        let e = GameEvent::Plug {
            cursor: frame_cursor(f),
            dest: t.dest,
            object: t.object,
            rects_overlap: t.rects_overlap,
        };
        assert(event_result(f.plugged[k - 1], f.plugged[k], e));
        if sockets_sound(f.plugged[0]) {
            law_sockets_hold_real_cables(f.plugged[k - 1], f.plugged[k], e);
        }
        if all_connected_spec(f.plugged[0].dests) {
            assert(f.plugged[k - 1].dests[t.dest].connected != crate::rules::NO_OBJECT);
            assert(f.plugged[k].dests =~= f.plugged[k - 1].dests);
        }
    }
}

/// A button reported in a row's clicks was clicked.
proof fn lemma_clicked_button(
    buttons: Seq<static_rect_button>,
    hovered: Seq<bool>,
    pressed: bool,
    cursor: CursorIcon,
    id: i32,
)
    requires
        hovered.len() == buttons.len(),
        clicked_ids(buttons, hovered, pressed, cursor).contains(id),
    ensures
        exists|i: int|
            0 <= i < buttons.len() && (#[trigger] buttons[i]).button_id == id && button_clicked(
                buttons[i],
                hovered[i],
                pressed,
                cursor,
            ),
    decreases buttons.len(),
{
    let last = buttons.len() - 1;
    let init = buttons.drop_last();
    let h = hovered.take(last);
    let prev = clicked_ids(init, h, pressed, cursor);
    if prev.contains(id) {
        lemma_clicked_button(init, h, pressed, cursor, id);
        let i = choose|i: int|
            0 <= i < init.len() && (#[trigger] init[i]).button_id == id && button_clicked(
                init[i],
                h[i],
                pressed,
                cursor,
            );
        assert(buttons[i] == init[i] && hovered[i] == h[i]);
    } else {
        assert(button_clicked(buttons[last], hovered[last], pressed, cursor));
        let r = prev.push(buttons[last].button_id);
        let w = choose|w: int| 0 <= w < r.len() && r[w] == id;
        if w < prev.len() {
            assert(prev.contains(id));
        }
    }
}

/// What the main screen's buttons do to the game in a frame.
proof fn lemma_main_buttons(
    old: GameView,
    new: GameView,
    hovered: Seq<bool>,
    pressed: bool,
    cursor: CursorIcon,
    pick: usize,
    moves: Seq<usize>,
)
    requires
        main_buttons_result(old, new, hovered, pressed, cursor, pick, moves),
        clicked_ids(old.buttons, hovered, pressed, cursor).contains(RESET_BUTTON) ==> crate::setup::picks_within(
            moves,
            redealt_count(old),
        ),
    ensures
        ({
            let clicked = clicked_ids(old.buttons, hovered, pressed, cursor);
            &&& new.show_mode == (if clicked.contains(SETTINGS_BUTTON) {
                SETTINGS_SCREEN
            } else {
                old.show_mode
            })
            &&& clicked.contains(SETTINGS_BUTTON) ==> forall|i: int|
                0 <= i < new.settings_buttons.len() && (#[trigger] new.settings_buttons[i]).button_id
                    == SETTINGS_BUTTON ==> new.settings_buttons[i].clicked_frames == BUTTON_CLICK_FRAMES
            &&& !clicked.contains(RESET_BUTTON) ==> new.objects == old.objects && new.dests == old.dests
            &&& !clicked.contains(RESET_BUTTON) && old.pause ==> new.pause && new.points == old.points
            &&& new.points != old.points ==> new.pause && (!old.pause || clicked.contains(RESET_BUTTON))
            &&& old.pause && !new.pause ==> clicked.contains(RESET_BUTTON)
            &&& requests_sound(old) ==> requests_sound(new)
            &&& sockets_sound(old) ==> sockets_sound(new)
        }),
{
    let clicked = clicked_ids(old.buttons, hovered, pressed, cursor);
    let b = GameView { buttons: buttons_after(old.buttons, hovered, pressed, cursor), ..old };
    let mid = if clicked.contains(RESET_BUTTON) {
        choose|mid: GameView| dealt(b, mid, pick, moves) && after_main_buttons(mid, new, clicked)
    } else {
        b
    };
    assert(after_main_buttons(mid, new, clicked));
    if clicked.contains(RESET_BUTTON) {
        assert(redealt_count(b) == redealt_count(old));
        assert(event_result(b, mid, GameEvent::Deal { pick, moves }));
        if requests_sound(old) {
            assert(requests_sound(b));
            law_requests_stay_sound(b, mid, GameEvent::Deal { pick, moves });
        }
        if sockets_sound(old) {
            assert(sockets_sound(b));
            law_sockets_hold_real_cables(b, mid, GameEvent::Deal { pick, moves });
        }
    } else {
        assert(mid =~= b);
    }
    let c = if clicked.contains(CHECK_BUTTON) {
        checked(mid)
    } else {
        mid
    };
    if clicked.contains(CHECK_BUTTON) {
        assert(event_result(mid, c, GameEvent::Check));
        if requests_sound(mid) {
            law_requests_stay_sound(mid, c, GameEvent::Check);
        }
        if sockets_sound(mid) {
            law_sockets_hold_real_cables(mid, c, GameEvent::Check);
        }
    }
    if clicked.contains(SETTINGS_BUTTON) {
        assert(new =~= opened_settings(c));
        assert forall|i: int|
            0 <= i < new.settings_buttons.len() && (#[trigger] new.settings_buttons[i]).button_id
                == SETTINGS_BUTTON implies new.settings_buttons[i].clicked_frames == BUTTON_CLICK_FRAMES by {
            assert(new.settings_buttons == pressed_id(c.settings_buttons, SETTINGS_BUTTON));
        }
    } else {
        assert(new =~= c);
    }
    if sockets_sound(old) {
        if !clicked.contains(RESET_BUTTON) {
            assert(b.dests == old.dests && b.objects == old.objects);
            assert(sockets_sound(b));
        }
        assert(sockets_sound(mid));
        assert(sockets_sound(c));
        assert(new.dests == c.dests && new.objects == c.objects);
    }
}

/// What the settings screen's part of a frame does to the game.
proof fn lemma_settings_part(
    old: GameView,
    new: GameView,
    slider_hovered: Seq<bool>,
    button_hovered: Seq<bool>,
    pressed: bool,
    cursor: CursorIcon,
)
    requires
        settings_result(old, new, slider_hovered, button_hovered, pressed, cursor),
    ensures
        new.objects == old.objects,
        new.dests == old.dests,
        new.points == old.points,
        new.pause == old.pause,
        new.requested == old.requested,
        new.show_mode == (if clicked_ids(old.settings_buttons, button_hovered, pressed, cursor).contains(
            SETTINGS_BUTTON,
        ) {
            MAIN_SCREEN
        } else {
            old.show_mode
        }),
{
    let mid = choose|mid: GameView|
        settings_ticked(old, mid, slider_hovered, button_hovered, pressed, cursor) && settings_clicked(
            mid,
            new,
            crate::sliders::clicked_slider_ids(old.sliders, slider_hovered, pressed),
            clicked_ids(old.settings_buttons, button_hovered, pressed, cursor),
        );
}

/// What the main screen's part of a frame does to the game.
proof fn lemma_main_part(start: GameView, f: FrameTrace)
    requires
        main_part_ok(start, f),
        main_clicked(f).contains(RESET_BUTTON) ==> crate::setup::picks_within(
            f.moves,
            redealt_count(after_plugs(f)),
        ),
    ensures
        f.shown.show_mode == (if main_clicked(f).contains(SETTINGS_BUTTON) {
            SETTINGS_SCREEN
        } else {
            start.show_mode
        }),
        main_clicked(f).contains(SETTINGS_BUTTON) ==> forall|i: int|
            0 <= i < f.shown.settings_buttons.len() && (#[trigger] f.shown.settings_buttons[i]).button_id
                == SETTINGS_BUTTON ==> f.shown.settings_buttons[i].clicked_frames == BUTTON_CLICK_FRAMES,
        start.pause && all_connected_spec(start.dests) && !main_clicked(f).contains(RESET_BUTTON) ==> {
            &&& f.shown.pause
            &&& f.shown.points == start.points
            &&& f.shown.objects == start.objects
            &&& f.shown.dests == start.dests
        },
        f.shown.points != start.points ==> f.shown.pause && (!start.pause || main_clicked(f).contains(
            RESET_BUTTON,
        )),
        start.pause && !f.shown.pause ==> main_clicked(f).contains(RESET_BUTTON),
        requests_sound(start) ==> requests_sound(f.shown),
        sockets_sound(start) ==> sockets_sound(f.shown),
{
    let mv = GameEvent::Move { hovered: f.move_hovered, pressed: f.pressed };
    assert(event_result(start, f.moved, mv));
    let hv = GameEvent::Hover { hovered: f.hover_hovered, pressed: f.pressed };
    assert(event_result(f.moved, f.hovered, hv));
    if requests_sound(start) {
        law_requests_stay_sound(start, f.moved, mv);
        law_requests_stay_sound(f.moved, f.hovered, hv);
    }
    if sockets_sound(start) {
        law_sockets_hold_real_cables(start, f.moved, mv);
        law_sockets_hold_real_cables(f.moved, f.hovered, hv);
    }
    lemma_plugs(f, f.plugs.len() as int);
    let p = after_plugs(f);
    if start.pause {
        assert(f.moved.objects == start.objects && f.moved.dests == start.dests);
    }
    assert(requests_sound(f.hovered) ==> requests_sound(p));
    lemma_main_buttons(p, f.buttons_done, f.button_hovered, f.pressed, frame_cursor(f), f.pick, f.moves);
    if f.buttons_done.requested.len() > 0 {
        let e = GameEvent::ShowTexts;
        assert(event_result(f.buttons_done, f.shown, e));
        if requests_sound(f.buttons_done) {
            law_requests_stay_sound(f.buttons_done, f.shown, e);
        }
        if sockets_sound(f.buttons_done) {
            law_sockets_hold_real_cables(f.buttons_done, f.shown, e);
        }
    }
}

// ---------------------------------------------------------------------------
// Laws of a frame
// ---------------------------------------------------------------------------

/// A frame shows the main or the settings screen, and changes the screen
/// only when the buttons of the screen shown at its start report the
/// settings button. Opening the settings does not switch straight back in
/// the same frame.
pub proof fn law_frame_screen(start: GameView, end: GameView, f: FrameTrace)
    requires
        frame_ok(start, end, f),
        start.show_mode == MAIN_SCREEN || start.show_mode == SETTINGS_SCREEN,
        start.show_mode == MAIN_SCREEN && main_clicked(f).contains(RESET_BUTTON) ==> crate::setup::picks_within(
            f.moves,
            redealt_count(after_plugs(f)),
        ),
    ensures
        end.show_mode == MAIN_SCREEN || end.show_mode == SETTINGS_SCREEN,
        end.show_mode != start.show_mode ==> {
            ||| start.show_mode == MAIN_SCREEN && main_clicked(f).contains(SETTINGS_BUTTON)
            ||| start.show_mode == SETTINGS_SCREEN && settings_clicked_in(f).contains(SETTINGS_BUTTON)
        },
        start.show_mode == MAIN_SCREEN && main_clicked(f).contains(SETTINGS_BUTTON) ==> end.show_mode
            == SETTINGS_SCREEN,
{
    if start.show_mode == MAIN_SCREEN {
        lemma_main_part(start, f);
    }
    if f.shown.show_mode == SETTINGS_SCREEN {
        lemma_settings_part(
            f.shown,
            end,
            f.slider_hovered,
            f.settings_button_hovered,
            f.pressed,
            f.settings_cursor,
        );
        if start.show_mode == MAIN_SCREEN && main_clicked(f).contains(SETTINGS_BUTTON)
            && settings_clicked_in(f).contains(SETTINGS_BUTTON) {
            lemma_clicked_button(
                f.shown.settings_buttons,
                f.settings_button_hovered,
                f.pressed,
                f.settings_cursor,
                SETTINGS_BUTTON,
            );
            let i = choose|i: int|
                0 <= i < f.shown.settings_buttons.len() && (#[trigger] f.shown.settings_buttons[i]).button_id
                    == SETTINGS_BUTTON && button_clicked(
                    f.shown.settings_buttons[i],
                    f.settings_button_hovered[i],
                    f.pressed,
                    f.settings_cursor,
                );
            assert(f.shown.settings_buttons[i].clicked_frames == BUTTON_CLICK_FRAMES);
        }
    }
}

/// Over a frame the requests stay free of repeats and hold only the two messages.
pub proof fn law_frame_requests_sound(start: GameView, end: GameView, f: FrameTrace)
    requires
        frame_ok(start, end, f),
        requests_sound(start),
        start.show_mode == MAIN_SCREEN && main_clicked(f).contains(RESET_BUTTON) ==> crate::setup::picks_within(
            f.moves,
            redealt_count(after_plugs(f)),
        ),
    ensures
        requests_sound(end),
{
    if start.show_mode == MAIN_SCREEN {
        lemma_main_part(start, f);
    }
    if f.shown.show_mode == SETTINGS_SCREEN {
        lemma_settings_part(
            f.shown,
            end,
            f.slider_hovered,
            f.settings_button_hovered,
            f.pressed,
            f.settings_cursor,
        );
    }
}

/// Over a frame every socket stays empty or holding one of the game's cables.
pub proof fn law_frame_sockets_sound(start: GameView, end: GameView, f: FrameTrace)
    requires
        frame_ok(start, end, f),
        sockets_sound(start),
        start.show_mode == MAIN_SCREEN && main_clicked(f).contains(RESET_BUTTON) ==> crate::setup::picks_within(
            f.moves,
            redealt_count(after_plugs(f)),
        ),
    ensures
        sockets_sound(end),
{
    if start.show_mode == MAIN_SCREEN {
        lemma_main_part(start, f);
    }
    if f.shown.show_mode == SETTINGS_SCREEN {
        lemma_settings_part(
            f.shown,
            end,
            f.slider_hovered,
            f.settings_button_hovered,
            f.pressed,
            f.settings_cursor,
        );
    }
}

/// A checked board stays frozen through a frame without a reset: it stays
/// paused, keeps its points, its cables and its sockets.
pub proof fn law_frame_checked_board_frozen(start: GameView, end: GameView, f: FrameTrace)
    requires
        frame_ok(start, end, f),
        start.pause,
        all_connected_spec(start.dests),
        start.show_mode == MAIN_SCREEN ==> !main_clicked(f).contains(RESET_BUTTON),
    ensures
        end.pause,
        end.points == start.points,
        end.objects == start.objects,
        end.dests == start.dests,
{
    if start.show_mode == MAIN_SCREEN {
        lemma_main_part(start, f);
    }
    if f.shown.show_mode == SETTINGS_SCREEN {
        lemma_settings_part(
            f.shown,
            end,
            f.slider_hovered,
            f.settings_button_hovered,
            f.pressed,
            f.settings_cursor,
        );
    }
}

/// Over a frame the points change only by a check that pauses the game, of
/// a game that was unpaused or was reset in that frame; and only a reset
/// reported by the main screen's buttons unpauses a paused game.
pub proof fn law_frame_points(start: GameView, end: GameView, f: FrameTrace)
    requires
        frame_ok(start, end, f),
        start.show_mode == MAIN_SCREEN && main_clicked(f).contains(RESET_BUTTON) ==> crate::setup::picks_within(
            f.moves,
            redealt_count(after_plugs(f)),
        ),
    ensures
        end.points != start.points ==> end.pause && start.show_mode == MAIN_SCREEN && (!start.pause
            || main_clicked(f).contains(RESET_BUTTON)),
        start.pause && !end.pause ==> start.show_mode == MAIN_SCREEN && main_clicked(f).contains(
            RESET_BUTTON,
        ),
{
    if start.show_mode == MAIN_SCREEN {
        lemma_main_part(start, f);
    }
    if f.shown.show_mode == SETTINGS_SCREEN {
        lemma_settings_part(
            f.shown,
            end,
            f.slider_hovered,
            f.settings_button_hovered,
            f.pressed,
            f.settings_cursor,
        );
    }
}

} // verus!
