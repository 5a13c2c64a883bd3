use vstd::prelude::*;
use crate::buttons::{
    buttons_after, clicked_ids, contains_id, manage_all_buttons, press_buttons_with_id,
    static_rect_button,
};
use crate::cables::{
    all_connected, all_connected_spec, grab_overlaps_connect, manage_objects, move_objects,
    round_score, score, static_rect_data, static_rect_data_destination, CursorIcon, MoveStep,
    grabbed_after, cursor_for, any_hovered, after_move, takes_offset, drags, released, some_drag,
};
use crate::rules::{
    BUTTON_CLICK_FRAMES, CHECK_BUTTON, CLEAR_MODE_SLIDER, CLICK_RESET_TEXT, CONNECT_ALL_TEXT,
    MAIN_SCREEN, NO_OBJECT, RESET_BUTTON, SETTINGS_BUTTON, SETTINGS_SCREEN, SHUFFLE_MOVES,
    TEXT_FRAMES, CABLE_COUNT,
};
use crate::setup::{
    deal_sockets, dealt_sockets, draw_round_picks, kept_cables, mode_name, mode_name_spec,
    picks_within, redealt_cables, shuffle_with, shuffled, split_cables, wiring_for, Wiring,
};
use crate::sliders::{
    clicked_slider_ids, draw_sliders, flip_sliders, last_flip, slider_step_fits, slider_stepped,
    static_rect_slider,
};
use crate::texts::{
    manage_requested_text, request_text, text_time, texts_after, ids_after, drawn_indices,
    texts_fit,
};

verus! {

/// The settings screen: what a reset clears (`clear_mode` on: every cable;
/// off: only the cables not placed right), its sliders and its buttons.
pub struct Settings {
    pub clear_mode: bool,
    pub sliders: Vec<static_rect_slider>,
    pub buttons: Vec<static_rect_button>,
}

impl Settings {
    /// Settings of a new game: a reset clears everything; no slider or button yet.
    pub fn new() -> (settings: Settings)
        ensures
            settings.clear_mode,
            settings.sliders@.len() == 0,
            settings.buttons@.len() == 0,
    {
        Settings { clear_mode: true, sliders: Vec::new(), buttons: Vec::new() }
    }
}

/// The whole game as values: cables, sockets, buttons, messages, score and
/// screen, with the settings.
#[verifier::ext_equal]
pub struct GameView {
    pub objects: Seq<static_rect_data>,
    pub dests: Seq<static_rect_data_destination>,
    pub buttons: Seq<static_rect_button>,
    pub texts: Seq<text_time>,
    pub object_grabbed: i32,
    pub points: i32,
    pub pause: bool,
    pub requested: Seq<i32>,
    pub mode: Seq<char>,
    pub clear_mode: bool,
    pub sliders: Seq<static_rect_slider>,
    pub settings_buttons: Seq<static_rect_button>,
    pub show_mode: i32,
}

/// The state of the game. The pictures, fonts and rectangles that go with
/// it are kept by the drawing side.
pub struct MainState {
    pub static_objects: Vec<static_rect_data>,
    pub static_objects_destination: Vec<static_rect_data_destination>,
    pub static_buttons: Vec<static_rect_button>,
    pub timed_text: Vec<text_time>,
    pub object_grabbed: i32,
    pub points: i32,
    pub pause: bool,
    pub requested_text: Vec<i32>,
    pub mode: String,
    pub settings: Settings,
    pub show_mode: i32,
}

impl View for MainState {
    type V = GameView;

    open spec fn view(&self) -> GameView {
        GameView {
            objects: self.static_objects@,
            dests: self.static_objects_destination@,
            buttons: self.static_buttons@,
            texts: self.timed_text@,
            object_grabbed: self.object_grabbed,
            points: self.points,
            pause: self.pause,
            requested: self.requested_text@,
            mode: self.mode@,
            clear_mode: self.settings.clear_mode,
            sliders: self.settings.sliders@,
            settings_buttons: self.settings.buttons@,
            show_mode: self.show_mode,
        }
    }
}

// ---------------------------------------------------------------------------
// What each event does to the game, as values
// ---------------------------------------------------------------------------

/// `ids` with `id` asked for (unchanged when it already is).
pub open spec fn requested_with(ids: Seq<i32>, id: i32) -> Seq<i32> {
    if ids.contains(id) {
        ids
    } else {
        ids.push(id)
    }
}

/// The game after the check button: an unpaused game with every socket
/// filled is scored and paused; an unpaused game with an empty socket asks
/// to connect every cable; a paused game asks for a reset.
pub open spec fn checked(v: GameView) -> GameView {
    if !v.pause {
        if all_connected_spec(v.dests) {
            GameView { points: (v.points + score(v.dests)) as i32, pause: true, ..v }
        } else {
            GameView { requested: requested_with(v.requested, CONNECT_ALL_TEXT), ..v }
        }
    } else {
        GameView { requested: requested_with(v.requested, CLICK_RESET_TEXT), ..v }
    }
}

/// The check's arithmetic stays within `i32`.
pub open spec fn check_fits(v: GameView) -> bool {
    !v.pause && all_connected_spec(v.dests) ==> {
        &&& v.dests.len() <= i32::MAX
        &&& i32::MIN <= v.points + score(v.dests) <= i32::MAX
    }
}

/// Every button with id `id` set to its full click time.
pub open spec fn pressed_id(buttons: Seq<static_rect_button>, id: i32) -> Seq<static_rect_button> {
    Seq::new(
        buttons.len(),
        |i: int|
            if buttons[i].button_id == id {
                static_rect_button { button_id: id, clicked_frames: BUTTON_CLICK_FRAMES }
            } else {
                buttons[i]
            },
    )
}

/// The game after switching to the settings screen.
pub open spec fn opened_settings(v: GameView) -> GameView {
    GameView {
        settings_buttons: pressed_id(v.settings_buttons, SETTINGS_BUTTON),
        show_mode: SETTINGS_SCREEN,
        ..v
    }
}

/// The game after switching back to the main screen.
pub open spec fn closed_settings(v: GameView) -> GameView {
    GameView { buttons: pressed_id(v.buttons, SETTINGS_BUTTON), show_mode: MAIN_SCREEN, ..v }
}

/// The text of the slider that chooses what a reset clears.
pub open spec fn clear_mode_text() -> Seq<char> {
    "If True, reset clears only not guessed cables"@
}

/// The buttons of the main screen of a new round: reset (just pressed),
/// check and settings.
pub open spec fn fresh_main_buttons() -> Seq<static_rect_button> {
    seq![
        static_rect_button { button_id: RESET_BUTTON, clicked_frames: BUTTON_CLICK_FRAMES },
        static_rect_button { button_id: CHECK_BUTTON, clicked_frames: 0 },
        static_rect_button { button_id: SETTINGS_BUTTON, clicked_frames: 0 },
    ]
}

/// The two messages added by a new round.
pub open spec fn fresh_texts() -> Seq<text_time> {
    seq![
        text_time { text_id: CONNECT_ALL_TEXT, time_static: TEXT_FRAMES, time_count: TEXT_FRAMES },
        text_time { text_id: CLICK_RESET_TEXT, time_static: TEXT_FRAMES, time_count: TEXT_FRAMES },
    ]
}

/// `new` is `old` after a new round is dealt with wiring pick `pick` and
/// mixing picks `moves`. With the clear mode on, every socket is emptied and
/// all eight cables are mixed; with it off, each socket holding its own
/// cable keeps it, and only the other cables are mixed and dealt again
/// (after the kept ones in the list). Then: fresh main buttons, nothing
/// grabbed, not paused, the wiring's name; the two messages, the clear-mode
/// slider and a settings button are added to those there were. Score,
/// requests, clear mode and screen stay.
pub open spec fn dealt(old: GameView, new: GameView, pick: usize, moves: Seq<usize>) -> bool {
    &&& new.objects == kept_cables(old.dests, old.clear_mode) + shuffled(
        redealt_cables(old.dests, old.clear_mode),
        moves,
    )
    &&& new.dests == dealt_sockets(old.dests, old.clear_mode)
    &&& new.buttons == fresh_main_buttons()
    &&& new.texts == old.texts + fresh_texts()
    &&& new.object_grabbed == NO_OBJECT
    &&& new.points == old.points
    &&& !new.pause
    &&& new.requested == old.requested
    &&& new.mode == mode_name_spec(wiring_for(pick))
    &&& new.clear_mode == old.clear_mode
    &&& new.sliders.len() == old.sliders.len() + 1
    &&& forall|i: int| 0 <= i < old.sliders.len() ==> #[trigger] new.sliders[i] == old.sliders[i]
    &&& new.sliders.last().slider_id == CLEAR_MODE_SLIDER
    &&& new.sliders.last().frames == 0
    &&& !new.sliders.last().going_mode_on
    &&& new.sliders.last().clicked_wait == 0
    &&& new.sliders.last().text@ == clear_mode_text()
    &&& new.settings_buttons == old.settings_buttons.push(
        static_rect_button { button_id: SETTINGS_BUTTON, clicked_frames: 0 },
    )
    &&& new.show_mode == old.show_mode
}

/// The game after the main screen's clicked buttons, in the order the
/// game handles them: reset (dealt as `dealt` says), then check, then
/// settings. `mid` is the game after the reset step.
pub open spec fn after_main_buttons(
    mid: GameView,
    new: GameView,
    clicked: Seq<i32>,
) -> bool {
    let c = if clicked.contains(CHECK_BUTTON) {
        checked(mid)
    } else {
        mid
    };
    new =~= if clicked.contains(SETTINGS_BUTTON) {
        opened_settings(c)
    } else {
        c
    }
}

/// `new` is `v` after the settings screen's clicks (see `handle_settings_clicks`).
pub open spec fn settings_clicked(v: GameView, new: GameView, clicked_sliders: Seq<i32>, clicked_buttons: Seq<i32>) -> bool {
    let flip = clicked_sliders.contains(CLEAR_MODE_SLIDER);
    let close = clicked_buttons.contains(SETTINGS_BUTTON);
    &&& new.objects == v.objects
    &&& new.dests == v.dests
    &&& new.texts == v.texts
    &&& new.object_grabbed == v.object_grabbed
    &&& new.points == v.points
    &&& new.pause == v.pause
    &&& new.requested == v.requested
    &&& new.mode == v.mode
    &&& new.settings_buttons == v.settings_buttons
    &&& new.sliders.len() == v.sliders.len()
    &&& forall|i: int|
        0 <= i < v.sliders.len() ==> {
            let o = v.sliders[i];
            let s = #[trigger] new.sliders[i];
            &&& s.slider_id == o.slider_id
            &&& s.frames == o.frames
            &&& s.clicked_wait == o.clicked_wait
            &&& s.text == o.text
            &&& s.going_mode_on == (if flip && o.slider_id == CLEAR_MODE_SLIDER {
                !o.going_mode_on
            } else {
                o.going_mode_on
            })
        }
    &&& new.clear_mode == (if flip {
        !last_flip(v.sliders, CLEAR_MODE_SLIDER, !v.clear_mode)
    } else {
        v.clear_mode
    })
    &&& new.buttons == (if close {
        pressed_id(v.buttons, SETTINGS_BUTTON)
    } else {
        v.buttons
    })
    &&& new.show_mode == (if close {
        MAIN_SCREEN
    } else {
        v.show_mode
    })
}

/// The game after a frame of hovering (see `hover_cables`).
pub open spec fn hovered_state(v: GameView, hovered: Seq<bool>, pressed: bool) -> GameView {
    GameView { object_grabbed: grabbed_after(v.objects, hovered, pressed, v.object_grabbed), ..v }
}

/// `new` is `v` after a frame of dragging (see `move_cables`): only cables
/// and sockets change, and nothing does while paused or without sockets.
pub open spec fn cables_moved(v: GameView, new: GameView, hovered: Seq<bool>, pressed: bool) -> bool {
    &&& new =~= GameView { objects: new.objects, dests: new.dests, ..v }
    &&& new.objects.len() == v.objects.len()
    &&& new.dests.len() == v.dests.len()
    &&& v.pause || v.dests.len() == 0 ==> {
        &&& new.objects == v.objects
        &&& new.dests == v.dests
    }
    &&& !v.pause && v.dests.len() > 0 ==> {
        &&& forall|i: int|
            0 <= i < v.objects.len() ==> #[trigger] new.objects[i] == after_move(
                v.objects[i],
                v.object_grabbed,
                hovered[i],
                pressed,
            )
        &&& forall|j: int|
            0 <= j < v.dests.len() ==> #[trigger] new.dests[j] == (static_rect_data_destination {
                object_id: v.dests[j].object_id,
                connected: released(
                    v.dests[j].connected,
                    v.object_grabbed,
                    some_drag(v.objects, v.object_grabbed, hovered, pressed),
                ),
            })
    }
}

/// Cable `object` snaps into socket `dest` (see `plug_cable`).
pub open spec fn plug_snaps(v: GameView, cursor: CursorIcon, dest: int, rects_overlap: bool) -> bool {
    v.object_grabbed == NO_OBJECT && v.dests[dest].connected == NO_OBJECT && cursor == CursorIcon::Grab
        && rects_overlap
}

/// The game after socket `dest` is tried against cable `object`.
pub open spec fn plugged(v: GameView, cursor: CursorIcon, dest: int, object: int, rects_overlap: bool) -> GameView {
    GameView {
        dests: v.dests.update(
            dest,
            static_rect_data_destination {
                object_id: v.dests[dest].object_id,
                connected: if plug_snaps(v, cursor, dest, rects_overlap) {
                    v.objects[object].object_id
                } else {
                    v.dests[dest].connected
                },
            },
        ),
        ..v
    }
}

/// The game after a frame of showing the requested messages.
pub open spec fn texts_shown(v: GameView) -> GameView {
    GameView {
        texts: texts_after(v.texts, v.requested),
        requested: ids_after(v.texts, v.requested, v.requested),
        ..v
    }
}

/// `new` is `old` after a frame of the main screen's buttons: the row ticks
/// (see `manage_all_buttons`), and its clicks are handled as
/// `handle_main_buttons_with` says, a reset dealt with `pick` and `moves`.
pub open spec fn main_buttons_result(
    old: GameView,
    new: GameView,
    hovered: Seq<bool>,
    pressed: bool,
    cursor: CursorIcon,
    pick: usize,
    moves: Seq<usize>,
) -> bool {
    let clicked = clicked_ids(old.buttons, hovered, pressed, cursor);
    let b = GameView { buttons: buttons_after(old.buttons, hovered, pressed, cursor), ..old };
    if clicked.contains(RESET_BUTTON) {
        exists|mid: GameView| dealt(b, mid, pick, moves) && after_main_buttons(mid, new, clicked)
    } else {
        after_main_buttons(b, new, clicked)
    }
}

/// `mid` is `old` after the settings screen's sliders and buttons tick.
pub open spec fn settings_ticked(
    old: GameView,
    mid: GameView,
    slider_hovered: Seq<bool>,
    button_hovered: Seq<bool>,
    pressed: bool,
    cursor: CursorIcon,
) -> bool {
    &&& mid =~= GameView {
        sliders: mid.sliders,
        settings_buttons: buttons_after(old.settings_buttons, button_hovered, pressed, cursor),
        ..old
    }
    &&& mid.sliders.len() == old.sliders.len()
    &&& forall|i: int|
        0 <= i < old.sliders.len() ==> slider_stepped(
            old.sliders[i],
            #[trigger] mid.sliders[i],
            slider_hovered[i],
            pressed,
        )
}

/// `new` is `old` after a frame of the settings screen: sliders and buttons
/// tick, then their clicks are handled (see `handle_settings_clicks`).
pub open spec fn settings_result(
    old: GameView,
    new: GameView,
    slider_hovered: Seq<bool>,
    button_hovered: Seq<bool>,
    pressed: bool,
    cursor: CursorIcon,
) -> bool {
    exists|mid: GameView|
        settings_ticked(old, mid, slider_hovered, button_hovered, pressed, cursor) && settings_clicked(
            mid,
            new,
            clicked_slider_ids(old.sliders, slider_hovered, pressed),
            clicked_ids(old.settings_buttons, button_hovered, pressed, cursor),
        )
}

// ---------------------------------------------------------------------------
// The game's operations
// ---------------------------------------------------------------------------

/// The number of cables a reset of `v` deals anew.
pub open spec fn redealt_count(v: GameView) -> nat {
    redealt_cables(v.dests, v.clear_mode).len()
}

/// The part of the game a check right after a reset of `v` reads.
pub open spec fn after_reset_for_check(v: GameView) -> GameView {
    GameView { dests: dealt_sockets(v.dests, v.clear_mode), pause: false, ..v }
}

/// The check's arithmetic stays within `i32` when the buttons `clicked`
/// are handled: it matters only when the check button is among them, and
/// reads the game as the reset (if clicked too) leaves it.
pub open spec fn main_buttons_fit_spec(v: GameView, clicked: Seq<i32>) -> bool {
    clicked.contains(CHECK_BUTTON) ==> if clicked.contains(RESET_BUTTON) {
        check_fits(after_reset_for_check(v))
    } else {
        check_fits(v)
    }
}

/// Deals a new round with the given random picks: the wiring (pick 0 is
/// T568B, any other T568A), and the positions that mix the cables dealt
/// anew, each taken out and put at the end in turn (see `dealt`). Returns
/// the wiring dealt.
pub fn declare_variables_with(state: &mut MainState, pick: usize, moves: &Vec<usize>) -> (wiring: Wiring)
    requires
        picks_within(moves@, redealt_count(old(state)@)),
    ensures
        dealt(old(state)@, final(state)@, pick, moves@),
        wiring == wiring_for(pick),
{
    let wiring = if pick == 0 {
        Wiring::T568B
    } else {
        Wiring::T568A
    };
    state.mode = mode_name(wiring);
    let (mut objects, mut redealt) = split_cables(&state.static_objects_destination, state.settings.clear_mode);
    shuffle_with(&mut redealt, moves);
    objects.append(&mut redealt);
    let sockets = deal_sockets(&state.static_objects_destination, state.settings.clear_mode);
    state.static_objects = objects;
    state.static_objects_destination = sockets;
    state.object_grabbed = NO_OBJECT;
    state.pause = false;
    let mut buttons: Vec<static_rect_button> = Vec::new();
    buttons.push(static_rect_button { button_id: RESET_BUTTON, clicked_frames: BUTTON_CLICK_FRAMES });
    buttons.push(static_rect_button { button_id: CHECK_BUTTON, clicked_frames: 0 });
    buttons.push(static_rect_button { button_id: SETTINGS_BUTTON, clicked_frames: 0 });
    state.static_buttons = buttons;
    state.timed_text.push(
        text_time { text_id: CONNECT_ALL_TEXT, time_static: TEXT_FRAMES, time_count: TEXT_FRAMES },
    );
    state.timed_text.push(
        text_time { text_id: CLICK_RESET_TEXT, time_static: TEXT_FRAMES, time_count: TEXT_FRAMES },
    );
    state.settings.sliders.push(
        static_rect_slider {
            slider_id: CLEAR_MODE_SLIDER,
            frames: 0,
            going_mode_on: false,
            clicked_wait: 0,
            text: "If True, reset clears only not guessed cables".to_owned(),
        },
    );
    state.settings.buttons.push(static_rect_button { button_id: SETTINGS_BUTTON, clicked_frames: 0 });
    proof {
        assert(state.static_buttons@ =~= fresh_main_buttons());
        assert(state.timed_text@ =~= old(state).timed_text@ + fresh_texts());
    }
    wiring
}

/// Deals a new round with fresh random picks (see `declare_variables_with`).
/// Whatever the picks, the round is dealt as `dealt` says. Returns the
/// wiring dealt.
pub fn declare_variables(state: &mut MainState) -> (wiring: Wiring)
    ensures
        exists|pick: usize, moves: Seq<usize>|
            {
                &&& pick < 2
                &&& moves.len() == (if redealt_count(old(state)@) > 0 {
                    SHUFFLE_MOVES
                } else {
                    0
                })
                &&& picks_within(moves, redealt_count(old(state)@))
                &&& dealt(old(state)@, final(state)@, pick, moves)
                &&& wiring == wiring_for(pick)
            },
{
    let count = split_cables(&state.static_objects_destination, state.settings.clear_mode).1.len();
    let (pick, moves) = draw_round_picks(count);
    declare_variables_with(state, pick, &moves)
}

impl MainState {
    /// A game before its first round: no cable, socket, button or message,
    /// nothing grabbed, no points, not paused, main screen.
    pub fn new() -> (state: MainState)
        ensures
            state@.objects.len() == 0,
            state@.dests.len() == 0,
            state@.buttons.len() == 0,
            state@.texts.len() == 0,
            state@.object_grabbed == NO_OBJECT,
            state@.points == 0,
            !state@.pause,
            state@.requested.len() == 0,
            state@.mode.len() == 0,
            state@.clear_mode,
            state@.sliders.len() == 0,
            state@.settings_buttons.len() == 0,
            state@.show_mode == MAIN_SCREEN,
    {
        MainState {
            static_objects: Vec::new(),
            static_objects_destination: Vec::new(),
            static_buttons: Vec::new(),
            timed_text: Vec::new(),
            object_grabbed: NO_OBJECT,
            points: 0,
            pause: false,
            requested_text: Vec::new(),
            mode: String::new(),
            settings: Settings::new(),
            show_mode: MAIN_SCREEN,
        }
    }

    /// The check button: scores and pauses a filled connector, or asks for
    /// the message that fits (see `checked`).
    pub fn check_connections(&mut self)
        requires
            check_fits(old(self)@),
        ensures
            final(self)@ == checked(old(self)@),
    {
        if self.pause == false {
            let correctly_connected = all_connected(&self.static_objects_destination);
            if correctly_connected == true {
                let points = round_score(&self.static_objects_destination);
                self.pause = true;
                self.points = self.points + points;
            } else {
                request_text(&mut self.requested_text, CONNECT_ALL_TEXT);
            }
        } else {
            request_text(&mut self.requested_text, CLICK_RESET_TEXT);
        }
    }

    /// Whether the check's arithmetic stays within `i32` (the condition of
    /// `check_connections`).
    pub fn check_fits_now(&self) -> (ok: bool)
        ensures
            ok == check_fits(self@),
    {
        if self.pause {
            return true;
        }
        if !all_connected(&self.static_objects_destination) {
            return true;
        }
        if self.static_objects_destination.len() > 2147483647usize {
            return false;
        }
        let s = round_score(&self.static_objects_destination);
        let total: i64 = self.points as i64 + s as i64;
        -2147483648i64 <= total && total <= 2147483647i64
    }

    /// Whether the check's arithmetic stays within `i32` when the main
    /// screen's buttons `clicked` are handled (the condition of
    /// `handle_main_buttons`).
    pub fn main_buttons_fit(&self, clicked: &Vec<i32>) -> (ok: bool)
        ensures
            ok == main_buttons_fit_spec(self@, clicked@),
    {
        if !contains_id(clicked, CHECK_BUTTON) {
            return true;
        }
        if contains_id(clicked, RESET_BUTTON) {
            let sockets = deal_sockets(&self.static_objects_destination, self.settings.clear_mode);
            if !all_connected(&sockets) {
                return true;
            }
            let s = round_score(&sockets);
            let total: i64 = self.points as i64 + s as i64;
            -2147483648i64 <= total && total <= 2147483647i64
        } else {
            self.check_fits_now()
        }
    }

    /// For each cable, the first socket holding it, if any.
    pub fn cable_sockets(&self) -> (sockets: Vec<Option<usize>>)
        ensures
            sockets.len() == self@.objects.len(),
            forall|i: int|
                0 <= i < sockets.len() ==> match #[trigger] sockets@[i] {
                    Some(j) => {
                        &&& j < self@.dests.len()
                        &&& self@.objects[i].object_id != NO_OBJECT
                        &&& self@.dests[j as int].connected == self@.objects[i].object_id
                        &&& forall|k: int| 0 <= k < j ==> self@.dests[k].connected != self@.objects[i].object_id
                    },
                    None => self@.objects[i].object_id == NO_OBJECT || forall|k: int|
                        0 <= k < self@.dests.len() ==> self@.dests[k].connected != self@.objects[i].object_id,
                },
    {
        let mut sockets: Vec<Option<usize>> = Vec::new();
        let n = self.static_objects.len();
        for i in 0..n
            invariant
                n == self@.objects.len(),
                sockets.len() == i,
                forall|q: int|
                    0 <= q < i ==> match #[trigger] sockets@[q] {
                        Some(j) => {
                            &&& j < self@.dests.len()
                            &&& self@.objects[q].object_id != NO_OBJECT
                            &&& self@.dests[j as int].connected == self@.objects[q].object_id
                            &&& forall|k: int| 0 <= k < j ==> self@.dests[k].connected != self@.objects[q].object_id
                        },
                        None => self@.objects[q].object_id == NO_OBJECT || forall|k: int|
                            0 <= k < self@.dests.len() ==> self@.dests[k].connected != self@.objects[q].object_id,
                    },
        {
            let id = self.static_objects[i].object_id;
            let mut found: Option<usize> = None;
            if id != NO_OBJECT {
                for j in 0..self.static_objects_destination.len()
                    invariant
                        i < n,
                        n == self@.objects.len(),
                        id == self@.objects[i as int].object_id,
                        found is None ==> forall|k: int| 0 <= k < j ==> self@.dests[k].connected != id,
                        found matches Some(f) ==> {
                            &&& f < j
                            &&& self@.dests[f as int].connected == id
                            &&& forall|k: int| 0 <= k < f ==> self@.dests[k].connected != id
                        },
                {
                    if found.is_none() && self.static_objects_destination[j].connected == id {
                        found = Some(j);
                    }
                }
            }
            sockets.push(found);
        }
        sockets
    }

    /// Switches to the settings screen; its settings button shows pressed.
    pub fn open_settings(&mut self)
        ensures
            final(self)@ == opened_settings(old(self)@),
    {
        press_buttons_with_id(&mut self.settings.buttons, SETTINGS_BUTTON);
        self.show_mode = SETTINGS_SCREEN;
        proof {
            assert(self.settings.buttons@ =~= pressed_id(old(self).settings.buttons@, SETTINGS_BUTTON));
        }
    }

    /// Switches back to the main screen; its settings button shows pressed.
    pub fn close_settings(&mut self)
        ensures
            final(self)@ == closed_settings(old(self)@),
    {
        press_buttons_with_id(&mut self.static_buttons, SETTINGS_BUTTON);
        self.show_mode = MAIN_SCREEN;
        proof {
            assert(self.static_buttons@ =~= pressed_id(old(self).static_buttons@, SETTINGS_BUTTON));
        }
    }

    /// Handles the buttons clicked on the main screen with the given random
    /// picks for a reset: reset first, then check, then settings.
    pub fn handle_main_buttons_with(
        &mut self,
        clicked: &Vec<i32>,
        pick: usize,
        moves: &Vec<usize>,
    )
        requires
            clicked@.contains(RESET_BUTTON) ==> picks_within(moves@, redealt_count(old(self)@)),
            main_buttons_fit_spec(old(self)@, clicked@),
        ensures
            clicked@.contains(RESET_BUTTON) ==> exists|mid: GameView|
                dealt(old(self)@, mid, pick, moves@) && after_main_buttons(
                    mid,
                    final(self)@,
                    clicked@,
                ),
            !clicked@.contains(RESET_BUTTON) ==> after_main_buttons(old(self)@, final(self)@, clicked@),
    {
        let ghost mut mid = self@;
        if contains_id(clicked, RESET_BUTTON) {
            declare_variables_with(self, pick, moves);
            proof {
                mid = self@;
            }
        }
        if contains_id(clicked, CHECK_BUTTON) {
            self.check_connections();
        }
        if contains_id(clicked, SETTINGS_BUTTON) {
            self.open_settings();
        }
        proof {
            if clicked@.contains(RESET_BUTTON) {
                assert(dealt(old(self)@, mid, pick, moves@));
                assert(after_main_buttons(mid, self@, clicked@));
            }
        }
    }

    /// Handles the buttons clicked on the main screen, drawing the random
    /// picks when a reset is clicked. Returns whether a new round was dealt
    /// (and its wiring), so that the drawing side rebuilds its pictures.
    pub fn handle_main_buttons(&mut self, clicked: &Vec<i32>) -> (dealt_wiring: Option<Wiring>)
        requires
            main_buttons_fit_spec(old(self)@, clicked@),
        ensures
            (dealt_wiring is Some) == clicked@.contains(RESET_BUTTON),
            clicked@.contains(RESET_BUTTON) ==> exists|pick: usize, moves: Seq<usize>, mid: GameView|
                {
                    &&& pick < 2
                    &&& moves.len() == (if redealt_count(old(self)@) > 0 {
                        SHUFFLE_MOVES
                    } else {
                        0
                    })
                    &&& picks_within(moves, redealt_count(old(self)@))
                    &&& dealt_wiring == Some(wiring_for(pick))
                    &&& dealt(old(self)@, mid, pick, moves)
                    &&& after_main_buttons(mid, final(self)@, clicked@)
                },
            !clicked@.contains(RESET_BUTTON) ==> after_main_buttons(old(self)@, final(self)@, clicked@),
    {
        if contains_id(clicked, RESET_BUTTON) {
            let count = split_cables(&self.static_objects_destination, self.settings.clear_mode).1.len();
            let (pick, moves) = draw_round_picks(count);
            self.handle_main_buttons_with(clicked, pick, &moves);
            let wiring = if pick == 0 {
                Wiring::T568B
            } else {
                Wiring::T568A
            };
            Some(wiring)
        } else {
            self.handle_main_buttons_with(clicked, 0, &Vec::new());
            None
        }
    }

    /// Handles the settings screen's clicks: the clear-mode slider flips
    /// (every slider with its id); a slider turned on makes a reset clear
    /// only the cables not placed right, so the clear mode becomes the
    /// opposite of the last slider flipped. The settings button switches
    /// back to the main screen.
    pub fn handle_settings_clicks(&mut self, clicked_sliders: &Vec<i32>, clicked_buttons: &Vec<i32>)
        ensures
            settings_clicked(old(self)@, final(self)@, clicked_sliders@, clicked_buttons@),
    {
        if contains_id(clicked_sliders, CLEAR_MODE_SLIDER) {
            let current = self.settings.clear_mode;
            let last = flip_sliders(&mut self.settings.sliders, CLEAR_MODE_SLIDER, !current);
            self.settings.clear_mode = !last;
        }
        if contains_id(clicked_buttons, SETTINGS_BUTTON) {
            self.close_settings();
        }
    }

    /// The buttons of the main screen that a frame with this input clicks.
    pub fn main_buttons_clicked(&self, hovered: &Vec<bool>, pressed: bool, cursor: CursorIcon) -> (clicked: Vec<i32>)
        requires
            hovered.len() == self.static_buttons.len(),
        ensures
            clicked@ == clicked_ids(self@.buttons, hovered@, pressed, cursor),
    {
        let mut row = self.static_buttons.clone();
        proof {
            assert(row@ =~= self@.buttons);
        }
        manage_all_buttons(&mut row, hovered, pressed, cursor)
    }

    /// One frame of the main screen's buttons with the given random picks
    /// for a reset: the row ticks and its clicks are handled (see
    /// `main_buttons_result`). Returns the ids clicked.
    pub fn main_buttons_frame_with(
        &mut self,
        hovered: &Vec<bool>,
        pressed: bool,
        cursor: CursorIcon,
        pick: usize,
        moves: &Vec<usize>,
    ) -> (clicked: Vec<i32>)
        requires
            hovered.len() == old(self).static_buttons.len(),
            clicked_ids(old(self)@.buttons, hovered@, pressed, cursor).contains(RESET_BUTTON) ==> picks_within(
                moves@,
                redealt_count(old(self)@),
            ),
            main_buttons_fit_spec(old(self)@, clicked_ids(old(self)@.buttons, hovered@, pressed, cursor)),
        ensures
            clicked@ == clicked_ids(old(self)@.buttons, hovered@, pressed, cursor),
            main_buttons_result(old(self)@, final(self)@, hovered@, pressed, cursor, pick, moves@),
    {
        let clicked = manage_all_buttons(&mut self.static_buttons, hovered, pressed, cursor);
        proof {
            let b = GameView {
                buttons: buttons_after(old(self)@.buttons, hovered@, pressed, cursor),
                ..old(self)@
            };
            assert(self@ =~= b);
        }
        self.handle_main_buttons_with(&clicked, pick, moves);
        clicked
    }

    /// One frame of the main screen's buttons, drawing the random picks when
    /// a reset is clicked. Returns the ids clicked and, when a round was
    /// dealt, its wiring (so that the drawing side rebuilds its pictures).
    pub fn main_buttons_frame(&mut self, hovered: &Vec<bool>, pressed: bool, cursor: CursorIcon) -> (res: (
        Vec<i32>,
        Option<Wiring>,
    ))
        requires
            hovered.len() == old(self).static_buttons.len(),
            main_buttons_fit_spec(old(self)@, clicked_ids(old(self)@.buttons, hovered@, pressed, cursor)),
        ensures
            res.0@ == clicked_ids(old(self)@.buttons, hovered@, pressed, cursor),
            (res.1 is Some) == res.0@.contains(RESET_BUTTON),
            exists|pick: usize, moves: Seq<usize>|
                {
                    &&& pick < 2
                    &&& picks_within(moves, redealt_count(old(self)@))
                    &&& res.0@.contains(RESET_BUTTON) ==> moves.len() == (if redealt_count(old(self)@) > 0 {
                        SHUFFLE_MOVES
                    } else {
                        0
                    })
                    &&& res.1 is Some ==> res.1 == Some(wiring_for(pick))
                    &&& main_buttons_result(old(self)@, final(self)@, hovered@, pressed, cursor, pick, moves)
                },
    {
        let will_reset = contains_id(&self.main_buttons_clicked(hovered, pressed, cursor), RESET_BUTTON);
        let count = split_cables(&self.static_objects_destination, self.settings.clear_mode).1.len();
        let (pick, moves) = if will_reset {
            draw_round_picks(count)
        } else {
            (0, Vec::new())
        };
        let clicked = self.main_buttons_frame_with(hovered, pressed, cursor, pick, &moves);
        let wiring = if will_reset {
            if pick == 0 {
                Some(Wiring::T568B)
            } else {
                Some(Wiring::T568A)
            }
        } else {
            None
        };
        proof {
            assert(picks_within(moves@, redealt_count(old(self)@)));
        }
        (clicked, wiring)
    }

    /// Whether a frame of the main screen's buttons with this input keeps
    /// the check's arithmetic within `i32` (the condition of `main_buttons_frame`).
    pub fn main_buttons_frame_fits(&self, hovered: &Vec<bool>, pressed: bool, cursor: CursorIcon) -> (ok: bool)
        requires
            hovered.len() == self.static_buttons.len(),
        ensures
            ok == main_buttons_fit_spec(self@, clicked_ids(self@.buttons, hovered@, pressed, cursor)),
    {
        let clicked = self.main_buttons_clicked(hovered, pressed, cursor);
        self.main_buttons_fit(&clicked)
    }

    /// One frame of the settings screen: the sliders and the buttons tick,
    /// then their clicks are handled (see `settings_result`). Returns the
    /// ids of the sliders and of the buttons clicked. The knobs are drawn
    /// at the positions they had before the call.
    pub fn settings_frame(
        &mut self,
        slider_hovered: &Vec<bool>,
        button_hovered: &Vec<bool>,
        pressed: bool,
        cursor: CursorIcon,
    ) -> (clicked: (Vec<i32>, Vec<i32>))
        requires
            slider_hovered.len() == old(self).settings.sliders.len(),
            button_hovered.len() == old(self).settings.buttons.len(),
            forall|i: int|
                0 <= i < old(self)@.sliders.len() ==> slider_step_fits(#[trigger] old(self)@.sliders[i]),
        ensures
            clicked.0@ == clicked_slider_ids(old(self)@.sliders, slider_hovered@, pressed),
            clicked.1@ == clicked_ids(old(self)@.settings_buttons, button_hovered@, pressed, cursor),
            settings_result(old(self)@, final(self)@, slider_hovered@, button_hovered@, pressed, cursor),
    {
        proof {
            assert forall|i: int| 0 <= i < self.settings.sliders@.len() implies slider_step_fits(
                #[trigger] self.settings.sliders@[i],
            ) by {
                assert(slider_step_fits(old(self)@.sliders[i]));
            }
        }
        let clicked_sliders = draw_sliders(&mut self.settings.sliders, slider_hovered, pressed);
        let clicked_buttons = manage_all_buttons(&mut self.settings.buttons, button_hovered, pressed, cursor);
        let ghost mid = self@;
        proof {
            assert(settings_ticked(old(self)@, mid, slider_hovered@, button_hovered@, pressed, cursor));
        }
        self.handle_settings_clicks(&clicked_sliders, &clicked_buttons);
        proof {
            assert(settings_ticked(old(self)@, mid, slider_hovered@, button_hovered@, pressed, cursor)
                && settings_clicked(mid, self@, clicked_sliders@, clicked_buttons@));
        }
        (clicked_sliders, clicked_buttons)
    }

    /// Picks the grabbed cable and the cursor for this frame (see
    /// `manage_objects`); `hovered[i]` says whether the mouse is over cable `i`.
    pub fn hover_cables(&mut self, hovered: &Vec<bool>, pressed: bool) -> (cursor: CursorIcon)
        requires
            hovered.len() == old(self).static_objects.len(),
        ensures
            cursor == cursor_for(any_hovered(hovered@), pressed),
            final(self)@ == hovered_state(old(self)@, hovered@, pressed),
    {
        manage_objects(&self.static_objects, hovered, pressed, &mut self.object_grabbed)
    }

    /// Moves the cables for this frame (see `move_objects`), unless the game
    /// is paused after a check, when nothing moves.
    pub fn move_cables(&mut self, hovered: &Vec<bool>, pressed: bool) -> (steps: Vec<MoveStep>)
        requires
            hovered.len() == old(self).static_objects.len(),
        ensures
            steps.len() == old(self)@.objects.len(),
            cables_moved(old(self)@, final(self)@, hovered@, pressed),
            old(self).pause || old(self)@.dests.len() == 0 ==> forall|i: int|
                0 <= i < steps.len() ==> #[trigger] steps@[i] == (MoveStep { take_offset: false, drag: false }),
            !old(self).pause && old(self)@.dests.len() > 0 ==> forall|i: int|
                0 <= i < old(self)@.objects.len() ==> #[trigger] steps@[i] == (MoveStep {
                    take_offset: takes_offset(old(self)@.objects[i], old(self).object_grabbed, hovered@[i], pressed),
                    drag: drags(old(self)@.objects[i], old(self).object_grabbed, hovered@[i], pressed),
                }),
    {
        let steps = if self.pause == false {
            move_objects(
                &mut self.static_objects_destination,
                &mut self.static_objects,
                self.object_grabbed,
                hovered,
                pressed,
            )
        } else {
            let mut steps: Vec<MoveStep> = Vec::new();
            for i in 0..self.static_objects.len()
                invariant
                    steps.len() == i,
                    forall|k: int|
                        0 <= k < i ==> #[trigger] steps@[k] == (MoveStep { take_offset: false, drag: false }),
            {
                steps.push(MoveStep { take_offset: false, drag: false });
            }
            steps
        };
        proof {
            assert(self@ =~= GameView { objects: self@.objects, dests: self@.dests, ..old(self)@ });
            if old(self).pause || old(self)@.dests.len() == 0 {
                assert(self@.objects =~= old(self)@.objects);
                assert(self@.dests =~= old(self)@.dests);
            }
        }
        steps
    }

    /// Socket `dest` against cable `object` for this frame (see
    /// `grab_overlaps_connect`); `rects_overlap` says whether their
    /// rectangles overlap. Returns whether the cable snaps onto the socket.
    pub fn plug_cable(&mut self, cursor: CursorIcon, dest: usize, object: usize, rects_overlap: bool) -> (snap: bool)
        requires
            dest < old(self).static_objects_destination.len(),
            object < old(self).static_objects.len(),
        ensures
            snap == plug_snaps(old(self)@, cursor, dest as int, rects_overlap),
            final(self)@ == plugged(old(self)@, cursor, dest as int, object as int, rects_overlap),
    {
        let object_id = self.static_objects[object].object_id;
        let grabbed = self.object_grabbed;
        let snap = grab_overlaps_connect(
            cursor,
            rects_overlap,
            grabbed,
            &mut self.static_objects_destination[dest].connected,
            object_id,
        );
        proof {
            assert(self.static_objects_destination@ =~= old(self)@.dests.update(
                dest as int,
                static_rect_data_destination {
                    object_id: old(self)@.dests[dest as int].object_id,
                    connected: if snap {
                        object_id
                    } else {
                        old(self)@.dests[dest as int].connected
                    },
                },
            ));
        }
        snap
    }

    /// Shows the requested messages for one frame (see
    /// `manage_requested_text`); returns the positions of the messages to draw.
    pub fn show_requested_texts(&mut self) -> (drawn: Vec<usize>)
        requires
            texts_fit(old(self)@.texts, old(self)@.requested),
        ensures
            final(self)@ == texts_shown(old(self)@),
            drawn@ == drawn_indices(old(self)@.texts, old(self)@.requested),
    {
        manage_requested_text(&mut self.timed_text, &mut self.requested_text)
    }
}

} // verus!
