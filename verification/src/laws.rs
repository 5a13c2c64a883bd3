use vstd::prelude::*;
use crate::buttons::{button_after, button_clicked, static_rect_button};
use crate::cables::{all_connected_spec, correct, lemma_score_full_iff_all_correct, score, CursorIcon};
use crate::rules::{
    CABLE_COUNT, CLICK_RESET_TEXT, NO_OBJECT, SLIDER_MAX_FRAMES, SLIDER_WAIT_FRAMES,
};
use crate::cables::static_rect_data_destination;
use crate::setup::{
    cables_split, fresh_cable, fresh_objects, kept_cables, lemma_shuffled_is_permutation,
    lemma_split_is_partition, picks_within, placed_right, redealt_cables, shuffled, stays,
};
use crate::sliders::{slider_step_fits, slider_stepped, static_rect_slider};
use crate::state::{checked, dealt, requested_with, GameView};
use crate::texts::{expires, expiring, ids_after, remove_first, text_time, texts_after, tick, tick_matching};

verus! {

broadcast use vstd::seq_lib::group_to_multiset_ensures;

// ---------------------------------------------------------------------------
// A new round
// ---------------------------------------------------------------------------

/// A cable kept (or dealt anew) at a reset is among the split's cables.
proof fn lemma_split_contains(
    dests: Seq<static_rect_data_destination>,
    clear_mode: bool,
    n: nat,
    staying: bool,
    i: int,
)
    requires
        0 <= i < n,
        n <= CABLE_COUNT,
        stays(dests, clear_mode, i as i32) == staying,
    ensures
        cables_split(dests, clear_mode, n, staying).contains(fresh_cable(i)),
    decreases n,
{
    let m = (n - 1) as nat;
    let prev = cables_split(dests, clear_mode, m, staying);
    if i < m {
        lemma_split_contains(dests, clear_mode, m, staying, i);
        let k = choose|k: int| 0 <= k < prev.len() && prev[k] == fresh_cable(i);
        if stays(dests, clear_mode, m as i32) == staying {
            assert(prev.push(fresh_cable(m as int))[k] == fresh_cable(i));
        }
    } else {
        assert(prev.push(fresh_cable(i))[prev.len() as int] == fresh_cable(i));
    }
}

/// Every new round deals the eight cables 0 to 7, each exactly once and none
/// held, whatever the random picks; nothing is grabbed or paused. With the
/// clear mode on every socket is empty; with it off every socket that held
/// its own cable still does, and every socket holds nothing or one of the
/// round's cables.
pub proof fn law_new_round_deals_each_cable_once(
    old: GameView,
    new: GameView,
    pick: usize,
    moves: Seq<usize>,
)
    requires
        picks_within(moves, redealt_cables(old.dests, old.clear_mode).len()),
        dealt(old, new, pick, moves),
    ensures
        new.objects.len() == CABLE_COUNT,
        new.objects.to_multiset() == fresh_objects().to_multiset(),
        forall|i: int|
            0 <= i < new.objects.len() ==> {
                &&& 0 <= (#[trigger] new.objects[i]).object_id < CABLE_COUNT
                &&& !new.objects[i].object_grabbed
            },
        new.dests.len() == CABLE_COUNT,
        forall|i: int| 0 <= i < new.dests.len() ==> (#[trigger] new.dests[i]).object_id == i,
        old.clear_mode ==> forall|i: int|
            0 <= i < new.dests.len() ==> (#[trigger] new.dests[i]).connected == NO_OBJECT,
        !old.clear_mode ==> forall|j: int|
            0 <= j < old.dests.len() && correct(#[trigger] old.dests[j]) && 0 <= old.dests[j].object_id
                < CABLE_COUNT ==> new.dests[old.dests[j].object_id as int].connected
                == old.dests[j].object_id,
        forall|i: int|
            0 <= i < new.dests.len() && (#[trigger] new.dests[i]).connected != NO_OBJECT ==> exists|k: int|
                0 <= k < new.objects.len() && (#[trigger] new.objects[k]).object_id == new.dests[i].connected,
        new.object_grabbed == NO_OBJECT,
        !new.pause,
{
    broadcast use vstd::seq_lib::group_seq_properties;
    let kept = kept_cables(old.dests, old.clear_mode);
    let rest = redealt_cables(old.dests, old.clear_mode);
    lemma_shuffled_is_permutation(rest, moves);
    lemma_split_is_partition(old.dests, old.clear_mode, CABLE_COUNT as nat);
    assert(fresh_objects().take(CABLE_COUNT as int) =~= fresh_objects());
    vstd::seq_lib::lemma_multiset_commutative(kept, shuffled(rest, moves));
    vstd::seq_lib::lemma_multiset_commutative(kept, rest);
    assert(new.objects.to_multiset() == fresh_objects().to_multiset());
    vstd::seq_lib::to_multiset_len(new.objects);
    vstd::seq_lib::to_multiset_len(fresh_objects());
    assert forall|i: int| 0 <= i < new.objects.len() implies {
        &&& 0 <= (#[trigger] new.objects[i]).object_id < CABLE_COUNT
        &&& !new.objects[i].object_grabbed
    } by {
        let o = new.objects[i];
        assert(new.objects.contains(o));
        assert(new.objects.to_multiset().count(o) > 0);
        assert(fresh_objects().to_multiset().count(o) > 0);
        assert(fresh_objects().contains(o));
        let k = choose|k: int| 0 <= k < fresh_objects().len() && fresh_objects()[k] == o;
        assert(fresh_objects()[k].object_id == k);
    }
    assert forall|i: int|
        0 <= i < new.dests.len() && (#[trigger] new.dests[i]).connected != NO_OBJECT implies exists|k: int|
            0 <= k < new.objects.len() && (#[trigger] new.objects[k]).object_id == new.dests[i].connected by {
        assert(stays(old.dests, old.clear_mode, i as i32));
        lemma_split_contains(old.dests, old.clear_mode, CABLE_COUNT as nat, true, i);
        let k = choose|k: int| 0 <= k < kept.len() && kept[k] == fresh_cable(i);
        assert(new.objects[k] == kept[k]);
        assert(new.objects[k].object_id == new.dests[i].connected);
    }
    if !old.clear_mode {
        assert forall|j: int|
            0 <= j < old.dests.len() && correct(#[trigger] old.dests[j]) && 0 <= old.dests[j].object_id
                < CABLE_COUNT implies new.dests[old.dests[j].object_id as int].connected
                == old.dests[j].object_id by {
            let id = old.dests[j].object_id;
            assert(placed_right(old.dests, id));
            assert(stays(old.dests, old.clear_mode, (id as int) as i32));
        }
    }
}

// ---------------------------------------------------------------------------
// Checking
// ---------------------------------------------------------------------------

/// A check scores a round at most once: only an unpaused game with every
/// socket filled gains or loses points, it is paused by that check, and any
/// further check only asks for a reset.
pub proof fn law_check_scores_once(v: GameView)
    ensures
        checked(v).points != v.points ==> !v.pause && all_connected_spec(v.dests),
        !v.pause && all_connected_spec(v.dests) ==> checked(v).pause,
        checked(v).pause ==> checked(checked(v)) == (GameView {
            requested: requested_with(checked(v).requested, CLICK_RESET_TEXT),
            ..checked(v)
        }),
        checked(v).objects == v.objects,
        checked(v).dests == v.dests,
{
}

/// A check of a filled connector gives the full number of sockets exactly
/// when every cable sits in its own socket, and takes as many away exactly
/// when none does.
pub proof fn law_check_full_marks(v: GameView)
    requires
        !v.pause,
        all_connected_spec(v.dests),
        i32::MIN <= v.points + score(v.dests) <= i32::MAX,
    ensures
        checked(v).points == v.points + v.dests.len() <==> forall|i: int|
            0 <= i < v.dests.len() ==> correct(#[trigger] v.dests[i]),
        checked(v).points == v.points - v.dests.len() <==> forall|i: int|
            0 <= i < v.dests.len() ==> !correct(#[trigger] v.dests[i]),
{
    lemma_score_full_iff_all_correct(v.dests);
}

/// Asking for a message twice asks for it once, and the requests never hold
/// an id twice when they did not before.
pub proof fn law_requests_stay_unique(ids: Seq<i32>, id: i32)
    ensures
        requested_with(requested_with(ids, id), id) == requested_with(ids, id),
        requested_with(ids, id).contains(id),
        ids.no_duplicates() ==> requested_with(ids, id).no_duplicates(),
{
    assert(ids.push(id)[ids.len() as int] == id);
}

// ---------------------------------------------------------------------------
// Buttons
// ---------------------------------------------------------------------------

/// One frame of input for a button: mouse over it, mouse button down, cursor.
pub struct ButtonInput {
    pub hovered: bool,
    pub pressed: bool,
    pub cursor: CursorIcon,
}

/// The button after a run of frames.
pub open spec fn button_run(b: static_rect_button, inputs: Seq<ButtonInput>) -> static_rect_button
    decreases inputs.len(),
{
    if inputs.len() == 0 {
        b
    } else {
        let i = inputs.last();
        button_after(button_run(b, inputs.drop_last()), i.hovered, i.pressed, i.cursor)
    }
}

/// The number of frames of a run in which the button is clicked.
pub open spec fn clicks_in_run(b: static_rect_button, inputs: Seq<ButtonInput>) -> nat
    decreases inputs.len(),
{
    if inputs.len() == 0 {
        0
    } else {
        let i = inputs.last();
        clicks_in_run(b, inputs.drop_last()) + if button_clicked(
            button_run(b, inputs.drop_last()),
            i.hovered,
            i.pressed,
            i.cursor,
        ) {
            1nat
        } else {
            0nat
        }
    }
}

/// A clicked button restarts its count-down, and takes no click, whatever
/// the input, until that count-down has run out: after a click no further
/// click comes in the next `BUTTON_CLICK_FRAMES - 1` frames.
pub proof fn law_button_cooldown(b: static_rect_button, inputs: Seq<ButtonInput>)
    requires
        inputs.len() < b.clicked_frames,
    ensures
        clicks_in_run(b, inputs) == 0,
        button_run(b, inputs).clicked_frames == b.clicked_frames - inputs.len(),
        button_run(b, inputs).button_id == b.button_id,
    decreases inputs.len(),
{
    if inputs.len() > 0 {
        law_button_cooldown(b, inputs.drop_last());
    }
}

/// A click sets the count-down to the full click time.
pub proof fn law_click_restarts_countdown(b: static_rect_button, hovered: bool, pressed: bool, cursor: CursorIcon)
    ensures
        button_clicked(b, hovered, pressed, cursor) ==> button_after(b, hovered, pressed, cursor).clicked_frames
            == crate::rules::BUTTON_CLICK_FRAMES,
        button_clicked(b, hovered, pressed, cursor) ==> hovered && pressed && cursor != CursorIcon::Grabbing,
{
}

// ---------------------------------------------------------------------------
// Sliders
// ---------------------------------------------------------------------------

/// The knob lies between its two ends and the wait within its length.
pub open spec fn slider_in_range(s: static_rect_slider) -> bool {
    &&& 0 <= s.frames <= SLIDER_MAX_FRAMES
    &&& 0 <= s.clicked_wait <= SLIDER_WAIT_FRAMES
}

/// A slider in range stays in range frame after frame (and its frame never
/// overflows); its knob never moves away from the end its state points to.
pub proof fn law_slider_stays_in_range(
    s: static_rect_slider,
    after: static_rect_slider,
    hovered: bool,
    pressed: bool,
)
    requires
        slider_in_range(s),
        slider_stepped(s, after, hovered, pressed),
    ensures
        slider_step_fits(s),
        slider_in_range(after),
        s.going_mode_on ==> after.frames >= s.frames,
        !s.going_mode_on ==> after.frames <= s.frames,
{
}

// ---------------------------------------------------------------------------
// Requested messages
// ---------------------------------------------------------------------------

/// Counting the messages with `id` that run out, when only the one at `j` has that id.
proof fn lemma_expiring_single(texts: Seq<text_time>, id: i32, j: int)
    requires
        0 <= j < texts.len(),
        texts[j].text_id == id,
        forall|k: int| 0 <= k < texts.len() && k != j ==> (#[trigger] texts[k]).text_id != id,
    ensures
        expiring(texts, id) == if expires(texts[j]) {
            1nat
        } else {
            0nat
        },
    decreases texts.len(),
{
    if j < texts.len() - 1 {
        let init = texts.drop_last();
        assert forall|k: int| 0 <= k < init.len() && k != j implies (#[trigger] init[k]).text_id != id by {
            assert(texts[k].text_id != id);
        }
        lemma_expiring_single(init, id, j);
    } else {
        let init = texts.drop_last();
        lemma_expiring_none(init, id);
    }
}

/// No message with `id` runs out when none has that id.
proof fn lemma_expiring_none(texts: Seq<text_time>, id: i32)
    requires
        forall|k: int| 0 <= k < texts.len() ==> (#[trigger] texts[k]).text_id != id,
    ensures
        expiring(texts, id) == 0,
    decreases texts.len(),
{
    if texts.len() > 0 {
        let init = texts.drop_last();
        assert forall|k: int| 0 <= k < init.len() implies (#[trigger] init[k]).text_id != id by {
            assert(texts[k].text_id != id);
        }
        lemma_expiring_none(init, id);
    }
}

/// A message requested alone, and the only one with its id, is shown one
/// frame: its count-down drops by one, and when it runs out it is wound up
/// again and its request is taken away; no other message changes.
pub proof fn law_requested_message_counts_down(texts: Seq<text_time>, id: i32, j: int)
    requires
        0 <= j < texts.len(),
        texts[j].text_id == id,
        texts[j].time_count > i32::MIN,
        forall|k: int| 0 <= k < texts.len() && k != j ==> (#[trigger] texts[k]).text_id != id,
    ensures
        texts_after(texts, seq![id]) == texts.update(j, tick(texts[j])),
        ids_after(texts, seq![id], seq![id]) == if expires(texts[j]) {
            Seq::<i32>::empty()
        } else {
            seq![id]
        },
        expires(texts[j]) ==> texts_after(texts, seq![id])[j].time_count == texts[j].time_static,
        !expires(texts[j]) ==> texts_after(texts, seq![id])[j].time_count == texts[j].time_count - 1,
{
    let shown = seq![id];
    assert(shown.drop_last() =~= Seq::<i32>::empty());
    assert(texts_after(texts, shown.drop_last()) == texts);
    assert(tick_matching(texts, id) =~= texts.update(j, tick(texts[j])));
    lemma_expiring_single(texts, id, j);
    assert(ids_after(texts, shown, shown.drop_last()) == shown);
    let e = expiring(texts_after(texts, shown.drop_last()), id);
    assert(ids_after(texts, shown, shown) == crate::texts::remove_first_n(shown, id, e));
    if expires(texts[j]) {
        assert(shown.contains(id)) by {
            assert(shown[0] == id);
        }
        let f = crate::texts::first_index(shown, id);
        assert(0 <= f < 1 && shown[f] == id) by {
            assert(shown[0] == id);
        }
        assert(f == 0);
        assert(shown.remove(0) =~= Seq::<i32>::empty());
        assert(crate::texts::remove_first_n(shown, id, 1) == remove_first(
            crate::texts::remove_first_n(shown, id, 0),
            id,
        ));
    }
}

/// Taking out the first `v` keeps a list free of repeats.
proof fn lemma_remove_first_keeps_unique(s: Seq<i32>, v: i32)
    requires
        s.no_duplicates(),
    ensures
        remove_first(s, v).no_duplicates(),
{
    if s.contains(v) {
        let f = crate::texts::first_index(s, v);
        let k = choose|k: int| 0 <= k < s.len() && s[k] == v;
        assert(0 <= k < s.len() && s[k] == v);
        assert(exists|i: int| 0 <= i < s.len() && s[i] == v && forall|j: int| 0 <= j < i ==> s[j] != v) by {
            if !(forall|j: int| 0 <= j < k ==> s[j] != v) {
                let j = choose|j: int| 0 <= j < k && s[j] == v;
                assert(s[j] == s[k]);
            }
        }
        let r = s.remove(f);
        assert forall|i: int, j: int| 0 <= i < r.len() && 0 <= j < r.len() && i != j implies r[i] != r[j] by {
            let si = if i < f { i } else { i + 1 };
            let sj = if j < f { j } else { j + 1 };
            assert(r[i] == s[si]);
            assert(r[j] == s[sj]);
        }
    }
}

/// Taking out the first `v` several times keeps a list free of repeats.
proof fn lemma_remove_first_n_keeps_unique(s: Seq<i32>, v: i32, n: nat)
    requires
        s.no_duplicates(),
    ensures
        crate::texts::remove_first_n(s, v, n).no_duplicates(),
    decreases n,
{
    if n > 0 {
        lemma_remove_first_n_keeps_unique(s, v, (n - 1) as nat);
        lemma_remove_first_keeps_unique(crate::texts::remove_first_n(s, v, (n - 1) as nat), v);
    }
}

/// Requests free of repeats stay so through a frame of showing messages:
/// together with `law_requests_stay_unique`, no message is ever asked for twice.
pub proof fn law_shown_requests_stay_unique(texts: Seq<text_time>, ids: Seq<i32>, shown: Seq<i32>)
    requires
        ids.no_duplicates(),
    ensures
        ids_after(texts, ids, shown).no_duplicates(),
    decreases shown.len(),
{
    if shown.len() > 0 {
        law_shown_requests_stay_unique(texts, ids, shown.drop_last());
        lemma_remove_first_n_keeps_unique(
            ids_after(texts, ids, shown.drop_last()),
            shown.last(),
            expiring(texts_after(texts, shown.drop_last()), shown.last()),
        );
    }
}

// ---------------------------------------------------------------------------
// What the operations are for, in terms of their inputs
// ---------------------------------------------------------------------------

/// The grab offset is taken only in the frame a cable is picked up: by the
/// grabbed cable, not yet held, under the mouse, with the button down. A
/// cable already held keeps its offset and follows the mouse while the
/// button stays down; on release it is dropped.
pub proof fn law_offset_taken_only_at_pickup(
    obj: crate::cables::static_rect_data,
    grabbed: i32,
    mouse_over: bool,
    pressed: bool,
)
    ensures
        crate::cables::takes_offset(obj, grabbed, mouse_over, pressed) ==> {
            &&& !obj.object_grabbed
            &&& obj.object_id == grabbed
            &&& mouse_over
            &&& pressed
            &&& crate::cables::after_move(obj, grabbed, mouse_over, pressed).object_grabbed
        },
        obj.object_grabbed && obj.object_id == grabbed && pressed ==> {
            &&& !crate::cables::takes_offset(obj, grabbed, mouse_over, pressed)
            &&& crate::cables::drags(obj, grabbed, mouse_over, pressed)
            &&& crate::cables::after_move(obj, grabbed, mouse_over, pressed).object_grabbed
        },
        !pressed ==> !crate::cables::drags(obj, grabbed, mouse_over, pressed) && !crate::cables::takes_offset(
            obj,
            grabbed,
            mouse_over,
            pressed,
        ),
        !pressed && obj.object_id == grabbed ==> !crate::cables::after_move(
            obj,
            grabbed,
            mouse_over,
            pressed,
        ).object_grabbed,
        obj.object_id != grabbed ==> crate::cables::after_move(obj, grabbed, mouse_over, pressed) == obj
            && !crate::cables::drags(obj, grabbed, mouse_over, pressed),
{
}

/// The cursor is the default arrow whenever no cable is under the mouse;
/// over a cable it is the open hand with the button up and the closed hand
/// with it down. With the button up nothing stays grabbed.
pub proof fn law_cursor_follows_hovering(hovered: Seq<bool>, pressed: bool)
    ensures
        !crate::cables::any_hovered(hovered) ==> crate::cables::cursor_for(
            crate::cables::any_hovered(hovered),
            pressed,
        ) == CursorIcon::Default,
        (exists|i: int| 0 <= i < hovered.len() && hovered[i]) && !pressed ==> crate::cables::cursor_for(
            crate::cables::any_hovered(hovered),
            pressed,
        ) == CursorIcon::Grab,
        (exists|i: int| 0 <= i < hovered.len() && hovered[i]) && pressed ==> crate::cables::cursor_for(
            crate::cables::any_hovered(hovered),
            pressed,
        ) == CursorIcon::Grabbing,
        forall|objects: Seq<crate::cables::static_rect_data>, g: i32|
            #![trigger crate::cables::grabbed_after(objects, hovered, pressed, g)]
            !pressed ==> crate::cables::grabbed_after(objects, hovered, pressed, g) == NO_OBJECT,
        forall|objects: Seq<crate::cables::static_rect_data>, g: i32|
            #![trigger crate::cables::grabbed_after(objects, hovered, pressed, g)]
            !(exists|i: int| 0 <= i < hovered.len() && hovered[i]) ==> crate::cables::grabbed_after(
                objects,
                hovered,
                pressed,
                g,
            ) == NO_OBJECT,
{
    if exists|i: int| 0 <= i < hovered.len() && hovered[i] {
        let i = choose|i: int| 0 <= i < hovered.len() && hovered[i];
        assert(hovered[i]);
    }
}

/// A socket counts as right exactly when it holds its own cable.
pub proof fn law_right_socket_holds_its_own_cable(d: static_rect_data_destination)
    ensures
        correct(d) <==> d.connected == d.object_id,
{
}

/// The score counts +1 for each socket holding its own cable and -1 for
/// each other socket.
pub proof fn law_score_counts_right_and_wrong(dests: Seq<static_rect_data_destination>)
    ensures
        score(dests) == 2 * dests.filter(|d: static_rect_data_destination| d.connected == d.object_id).len()
            - dests.len(),
    decreases dests.len(),
{
    reveal(Seq::filter);
    if dests.len() > 0 {
        law_score_counts_right_and_wrong(dests.drop_last());
    }
}

/// A check of an unpaused, filled connector adds the number of sockets
/// holding their own cable and takes away the number of the others.
pub proof fn law_check_adds_right_minus_wrong(v: GameView)
    requires
        !v.pause,
        all_connected_spec(v.dests),
        i32::MIN <= v.points + score(v.dests) <= i32::MAX,
    ensures
        checked(v).points == v.points + 2 * v.dests.filter(
            |d: static_rect_data_destination| d.connected == d.object_id,
        ).len() - v.dests.len(),
        checked(v).pause,
{
    law_score_counts_right_and_wrong(v.dests);
}

/// A reset keeps a cable in a socket only when the clear mode is off and
/// that socket held that very cable before: every other socket comes back empty.
pub proof fn law_reset_keeps_only_cables_in_their_own_socket(
    old: GameView,
    new: GameView,
    pick: usize,
    moves: Seq<usize>,
)
    requires
        dealt(old, new, pick, moves),
    ensures
        forall|i: int|
            0 <= i < new.dests.len() && (#[trigger] new.dests[i]).connected != NO_OBJECT ==> {
                &&& !old.clear_mode
                &&& new.dests[i].connected == i
                &&& new.dests[i].object_id == i
                &&& exists|j: int|
                    0 <= j < old.dests.len() && old.dests[j].object_id == i && old.dests[j].connected == i
            },
        !old.clear_mode ==> forall|j: int|
            0 <= j < old.dests.len() && old.dests[j].connected == old.dests[j].object_id && 0
                <= #[trigger] old.dests[j].object_id < CABLE_COUNT ==> new.dests[old.dests[j].object_id as int].connected
                == old.dests[j].object_id,
{
    assert forall|i: int|
        0 <= i < new.dests.len() && (#[trigger] new.dests[i]).connected != NO_OBJECT implies {
            &&& !old.clear_mode
            &&& new.dests[i].connected == i
            &&& new.dests[i].object_id == i
            &&& exists|j: int|
                0 <= j < old.dests.len() && old.dests[j].object_id == i && old.dests[j].connected == i
        } by {
        assert(stays(old.dests, old.clear_mode, i as i32));
        let j = choose|j: int|
            0 <= j < old.dests.len() && (#[trigger] old.dests[j]).object_id == i as i32 && old.dests[j].connected
                == i as i32;
        assert(old.dests[j].object_id == i && old.dests[j].connected == i);
    }
    if !old.clear_mode {
        assert forall|j: int|
            0 <= j < old.dests.len() && old.dests[j].connected == old.dests[j].object_id && 0
                <= #[trigger] old.dests[j].object_id < CABLE_COUNT implies new.dests[old.dests[j].object_id as int].connected
                == old.dests[j].object_id by {
            let id = old.dests[j].object_id;
            assert(placed_right(old.dests, id));
            assert(stays(old.dests, old.clear_mode, (id as int) as i32));
        }
    }
}

/// Dragging empties only the sockets holding the dragged cable; nothing
/// else changes a socket.
pub proof fn law_drag_unplugs_only_the_dragged_cable(connected: i32, grabbed: i32, dragged: bool)
    ensures
        crate::cables::released(connected, grabbed, dragged) != connected ==> dragged && connected == grabbed
            && crate::cables::released(connected, grabbed, dragged) == NO_OBJECT,
        dragged && connected == grabbed ==> crate::cables::released(connected, grabbed, dragged) == NO_OBJECT,
        !dragged ==> crate::cables::released(connected, grabbed, dragged) == connected,
{
}

/// The cable picked up is the first hovered one (skipping any whose id is
/// the empty mark): nothing picks a cable that is not under the mouse, nor
/// one that comes after another hovered cable.
pub proof fn law_grab_picks_first_hovered(objects: Seq<crate::cables::static_rect_data>, hovered: Seq<bool>)
    requires
        hovered.len() == objects.len(),
    ensures
        crate::cables::grab_candidate(objects, hovered) != NO_OBJECT ==> exists|i: int|
            0 <= i < objects.len() && hovered[i] && (#[trigger] objects[i]).object_id
                == crate::cables::grab_candidate(objects, hovered) && forall|k: int|
                0 <= k < i && hovered[k] ==> objects[k].object_id == NO_OBJECT,
        crate::cables::grab_candidate(objects, hovered) == NO_OBJECT ==> forall|k: int|
            0 <= k < objects.len() && hovered[k] ==> objects[k].object_id == NO_OBJECT,
    decreases objects.len(),
{
    if objects.len() > 0 {
        let last = objects.len() - 1;
        let init = objects.drop_last();
        let h = hovered.take(last);
        law_grab_picks_first_hovered(init, h);
        let prev = crate::cables::grab_candidate(init, h);
        if prev != NO_OBJECT {
            let i = choose|i: int|
                0 <= i < init.len() && h[i] && (#[trigger] init[i]).object_id == prev && forall|k: int|
                    0 <= k < i && h[k] ==> init[k].object_id == NO_OBJECT;
            assert(objects[i] == init[i] && hovered[i] == h[i]);
            assert forall|k: int| 0 <= k < i && hovered[k] implies objects[k].object_id == NO_OBJECT by {
                assert(objects[k] == init[k] && hovered[k] == h[k]);
            }
        } else {
            assert forall|k: int| 0 <= k < last && hovered[k] implies objects[k].object_id == NO_OBJECT by {
                assert(objects[k] == init[k] && hovered[k] == h[k]);
            }
            if hovered[last] && objects[last].object_id != NO_OBJECT {
                assert(objects[last].object_id == crate::cables::grab_candidate(objects, hovered));
            }
        }
    }
}

} // verus!
