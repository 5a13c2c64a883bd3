use vstd::prelude::*;
use crate::rules::NO_OBJECT;

verus! {

/// A cable the player can drag: whether it is held, and its id (the index
/// of the socket it belongs in). Its rectangle, colour and texture are kept
/// by the drawing side, in the same order.
#[derive(Clone, Copy, Debug, PartialEq, Eq, Structural)]
pub struct static_rect_data {
    pub object_grabbed: bool,
    pub object_id: i32,
}

/// A socket of the connector: its id and the id of the cable plugged into
/// it (`NO_OBJECT` when empty).
#[derive(Clone, Copy, Debug, PartialEq, Eq, Structural)]
pub struct static_rect_data_destination {
    pub object_id: i32,
    pub connected: i32,
}

/// The mouse cursor that the game asks for.
#[derive(Clone, Copy, Debug, PartialEq, Eq, Structural)]
pub enum CursorIcon {
    Default,
    Grab,
    Grabbing,
}

/// What the drawing side has to do to one cable's rectangle this frame.
#[derive(Clone, Copy, Debug, PartialEq, Eq, Structural)]
pub struct MoveStep {
    /// Remember the offset between the mouse and the cable's corner.
    pub take_offset: bool,
    /// Move the cable so that it keeps that offset to the mouse (inside the window).
    pub drag: bool,
}

// ---------------------------------------------------------------------------
// Hovering and grabbing
// ---------------------------------------------------------------------------

/// Some cable is under the mouse.
pub open spec fn any_hovered(hovered: Seq<bool>) -> bool {
    exists|i: int| 0 <= i < hovered.len() && #[trigger] hovered[i]
}

/// The id of the first hovered cable whose id is not `NO_OBJECT`, or
/// `NO_OBJECT` when there is none.
pub open spec fn grab_candidate(objects: Seq<static_rect_data>, hovered: Seq<bool>) -> i32
    decreases objects.len(),
{
    if objects.len() == 0 {
        NO_OBJECT
    } else {
        let prev = grab_candidate(objects.drop_last(), hovered.take(objects.len() - 1));
        if prev != NO_OBJECT {
            prev
        } else if hovered[objects.len() - 1] {
            objects.last().object_id
        } else {
            NO_OBJECT
        }
    }
}

/// The cursor for a frame: a hand over a cable, a closed hand while the
/// button is held over one.
pub open spec fn cursor_for(hovering: bool, pressed: bool) -> CursorIcon {
    if hovering {
        if pressed {
            CursorIcon::Grabbing
        } else {
            CursorIcon::Grab
        }
    } else {
        CursorIcon::Default
    }
}

/// The grabbed-object slot after a frame of hovering.
pub open spec fn grabbed_after(
    objects: Seq<static_rect_data>,
    hovered: Seq<bool>,
    pressed: bool,
    grabbed: i32,
) -> i32 {
    if any_hovered(hovered) && pressed {
        if grabbed == NO_OBJECT {
            grab_candidate(objects, hovered)
        } else {
            grabbed
        }
    } else {
        NO_OBJECT
    }
}

/// Chooses the cursor and which cable is grabbed: the first hovered cable is
/// picked while the mouse button is held and nothing else is; the slot is
/// emptied as soon as the button is up or nothing is under the mouse.
/// `hovered[i]` says whether the mouse is over the rectangle of `objects[i]`.
pub fn manage_objects(
    objects: &Vec<static_rect_data>,
    hovered: &Vec<bool>,
    pressed: bool,
    object_grabbed: &mut i32,
) -> (cursor: CursorIcon)
    requires
        hovered.len() == objects.len(),
    ensures
        cursor == cursor_for(any_hovered(hovered@), pressed),
        *final(object_grabbed) == grabbed_after(objects@, hovered@, pressed, *old(object_grabbed)),
{
    let ghost g0 = *object_grabbed;
    let n = objects.len();
    let mut is_overlapping = false;
    for i in 0..n
        invariant
            n == objects.len(),
            hovered.len() == n,
            is_overlapping == any_hovered(hovered@.take(i as int)),
            *object_grabbed == (if g0 == NO_OBJECT {
                grab_candidate(objects@.take(i as int), hovered@.take(i as int))
            } else {
                g0
            }),
    {
        proof {
            assert(objects@.take(i + 1).drop_last() =~= objects@.take(i as int));
            assert(hovered@.take(i + 1).take(i as int) =~= hovered@.take(i as int));
            assert(hovered@.take(i + 1)[i as int] == hovered@[i as int]);
        }
        if hovered[i] {
            is_overlapping = true;
            if *object_grabbed == NO_OBJECT {
                *object_grabbed = objects[i].object_id;
            }
        }
        proof {
            if hovered@[i as int] {
                assert(hovered@.take(i + 1)[i as int]);
            } else {
                assert forall|k: int| 0 <= k < i + 1 && #[trigger] hovered@.take(i + 1)[k] implies
                    hovered@.take(i as int)[k] by {}
            }
        }
    }
    proof {
        assert(objects@.take(n as int) =~= objects@);
        assert(hovered@.take(n as int) =~= hovered@);
    }
    if is_overlapping {
        if pressed {
            CursorIcon::Grabbing
        } else {
            *object_grabbed = NO_OBJECT;
            CursorIcon::Grab
        }
    } else {
        *object_grabbed = NO_OBJECT;
        CursorIcon::Default
    }
}

// ---------------------------------------------------------------------------
// Dragging
// ---------------------------------------------------------------------------

/// The cable is the grabbed one, the button is held, and it is already held
/// or under the mouse: it follows the mouse.
pub open spec fn drags(obj: static_rect_data, grabbed: i32, mouse_over: bool, pressed: bool) -> bool {
    obj.object_id == grabbed && pressed && (obj.object_grabbed || mouse_over)
}

/// The grabbed cable is picked up this frame: the offset to the mouse is taken.
pub open spec fn takes_offset(
    obj: static_rect_data,
    grabbed: i32,
    mouse_over: bool,
    pressed: bool,
) -> bool {
    obj.object_id == grabbed && mouse_over && !obj.object_grabbed && pressed
}

/// The cable after a frame of dragging: the grabbed cable is held exactly
/// while the button is down and it was held or under the mouse.
pub open spec fn after_move(
    obj: static_rect_data,
    grabbed: i32,
    mouse_over: bool,
    pressed: bool,
) -> static_rect_data {
    static_rect_data {
        object_grabbed: if obj.object_id == grabbed {
            pressed && (obj.object_grabbed || mouse_over)
        } else {
            obj.object_grabbed
        },
        object_id: obj.object_id,
    }
}

/// A socket's connection after the grabbed cable `grabbed` was dragged (or not).
pub open spec fn released(connected: i32, grabbed: i32, dragged: bool) -> i32 {
    if dragged && connected == grabbed {
        NO_OBJECT
    } else {
        connected
    }
}

/// One cable against one socket for one frame: picks the cable up, lets it
/// follow the mouse, drops it when the button is released, and unplugs it
/// from the socket `connected` while it is dragged. `object_id` is the
/// grabbed-object slot, `mouse_over` whether the mouse is over the cable.
pub fn move_object(
    obj: &mut static_rect_data,
    object_id: i32,
    connected: &mut i32,
    mouse_over: bool,
    pressed: bool,
) -> (step: MoveStep)
    ensures
        step.take_offset == takes_offset(*old(obj), object_id, mouse_over, pressed),
        step.drag == drags(*old(obj), object_id, mouse_over, pressed),
        *final(obj) == after_move(*old(obj), object_id, mouse_over, pressed),
        *final(connected) == released(*old(connected), object_id, step.drag),
{
    let mut step = MoveStep { take_offset: false, drag: false };
    if object_id == obj.object_id {
        if mouse_over {
            if !obj.object_grabbed {
                if pressed {
                    step.take_offset = true;
                    obj.object_grabbed = true;
                }
            }
        }
        if obj.object_grabbed {
            if pressed {
                step.drag = true;
                if *connected == object_id {
                    *connected = NO_OBJECT;
                }
            } else {
                obj.object_grabbed = false;
            }
        }
    }
    step
}

/// Some cable is dragged this frame.
pub open spec fn some_drag(
    objects: Seq<static_rect_data>,
    grabbed: i32,
    hovered: Seq<bool>,
    pressed: bool,
) -> bool {
    exists|i: int|
        0 <= i < objects.len() && #[trigger] drags(objects[i], grabbed, hovered[i], pressed)
}

/// Runs `move_object` for every socket and, inside, every cable, as a frame
/// of the game does. With no socket nothing happens; otherwise every cable
/// takes one step, and every socket holding the grabbed cable is emptied
/// when that cable is dragged. The steps say what to do with each cable's
/// rectangle (doing a step twice changes nothing more).
pub fn move_objects(
    dests: &mut Vec<static_rect_data_destination>,
    objects: &mut Vec<static_rect_data>,
    object_grabbed: i32,
    hovered: &Vec<bool>,
    pressed: bool,
) -> (steps: Vec<MoveStep>)
    requires
        hovered.len() == old(objects).len(),
    ensures
        steps.len() == old(objects).len(),
        final(objects).len() == old(objects).len(),
        final(dests).len() == old(dests).len(),
        old(dests).len() == 0 ==> final(objects)@ == old(objects)@,
        old(dests).len() == 0 ==> forall|i: int|
            0 <= i < steps.len() ==> #[trigger] steps@[i] == (MoveStep {
                take_offset: false,
                drag: false,
            }),
        old(dests).len() > 0 ==> forall|i: int|
            0 <= i < old(objects).len() ==> #[trigger] final(objects)@[i] == after_move(
                old(objects)@[i],
                object_grabbed,
                hovered@[i],
                pressed,
            ),
        old(dests).len() > 0 ==> forall|i: int|
            0 <= i < old(objects).len() ==> #[trigger] steps@[i] == (MoveStep {
                take_offset: takes_offset(old(objects)@[i], object_grabbed, hovered@[i], pressed),
                drag: drags(old(objects)@[i], object_grabbed, hovered@[i], pressed),
            }),
        forall|j: int|
            0 <= j < old(dests).len() ==> #[trigger] final(dests)@[j] == (static_rect_data_destination {
                object_id: old(dests)@[j].object_id,
                connected: released(
                    old(dests)@[j].connected,
                    object_grabbed,
                    some_drag(old(objects)@, object_grabbed, hovered@, pressed),
                ),
            }),
{
    let ghost objs0 = objects@;
    let ghost dests0 = dests@;
    let ghost any = some_drag(objs0, object_grabbed, hovered@, pressed);
    let n = objects.len();
    let m = dests.len();
    let mut steps: Vec<MoveStep> = Vec::new();
    for i in 0..n
        invariant
            steps.len() == i,
            forall|k: int| 0 <= k < i ==> #[trigger] steps@[k] == (MoveStep { take_offset: false, drag: false }),
    {
        steps.push(MoveStep { take_offset: false, drag: false });
    }
    for j in 0..m
        invariant
            n == objects.len(),
            m == dests.len(),
            n == hovered.len(),
            n == steps.len(),
            n == objs0.len(),
            m == dests0.len(),
            any == some_drag(objs0, object_grabbed, hovered@, pressed),
            j == 0 ==> objects@ == objs0,
            j == 0 ==> forall|k: int|
                0 <= k < n ==> #[trigger] steps@[k] == (MoveStep { take_offset: false, drag: false }),
            j > 0 ==> forall|k: int|
                0 <= k < n ==> #[trigger] objects@[k] == after_move(objs0[k], object_grabbed, hovered@[k], pressed),
            j > 0 ==> forall|k: int|
                0 <= k < n ==> #[trigger] steps@[k] == (MoveStep {
                    take_offset: takes_offset(objs0[k], object_grabbed, hovered@[k], pressed),
                    drag: drags(objs0[k], object_grabbed, hovered@[k], pressed),
                }),
            forall|k: int|
                0 <= k < j ==> #[trigger] dests@[k] == (static_rect_data_destination {
                    object_id: dests0[k].object_id,
                    connected: released(dests0[k].connected, object_grabbed, any),
                }),
            forall|k: int| j <= k < m ==> #[trigger] dests@[k] == dests0[k],
    {
        let ghost objs_before = objects@;
        let ghost steps_before = steps@;
        let ghost dests_before = dests@;
        let ghost c0 = dests0[j as int].connected;
        for i in 0..n
            invariant
                n == objects.len(),
                m == dests.len(),
                n == hovered.len(),
                n == steps.len(),
                n == objs0.len(),
                j < m,
                any == some_drag(objs0, object_grabbed, hovered@, pressed),
                c0 == dests0[j as int].connected,
                dests@[j as int].object_id == dests0[j as int].object_id,
                forall|k: int| 0 <= k < m && k != j ==> #[trigger] dests@[k] == dests_before[k],
                dests@[j as int].connected == released(
                    c0,
                    object_grabbed,
                    exists|k: int|
                        0 <= k < i && #[trigger] drags(objs0[k], object_grabbed, hovered@[k], pressed),
                ),
                forall|k: int|
                    0 <= k < i ==> #[trigger] objects@[k] == after_move(objs0[k], object_grabbed, hovered@[k], pressed),
                forall|k: int| i <= k < n ==> #[trigger] objects@[k] == objs_before[k],
                forall|k: int|
                    0 <= k < i ==> #[trigger] steps@[k] == (MoveStep {
                        take_offset: takes_offset(objs0[k], object_grabbed, hovered@[k], pressed),
                        drag: drags(objs0[k], object_grabbed, hovered@[k], pressed),
                    }),
                forall|k: int| i <= k < n ==> #[trigger] steps@[k] == steps_before[k],
                j == 0 ==> objs_before == objs0,
                j == 0 ==> forall|k: int|
                    0 <= k < n ==> #[trigger] steps_before[k] == (MoveStep { take_offset: false, drag: false }),
                j > 0 ==> forall|k: int|
                    0 <= k < n ==> #[trigger] objs_before[k] == after_move(objs0[k], object_grabbed, hovered@[k], pressed),
                j > 0 ==> forall|k: int|
                    0 <= k < n ==> #[trigger] steps_before[k] == (MoveStep {
                        take_offset: takes_offset(objs0[k], object_grabbed, hovered@[k], pressed),
                        drag: drags(objs0[k], object_grabbed, hovered@[k], pressed),
                    }),
        {
            let h = hovered[i];
            let mut conn = dests[j].connected;
            let mut obj = objects[i];
            let step = move_object(&mut obj, object_grabbed, &mut conn, h, pressed);
            objects.set(i, obj);
            dests[j].connected = conn;
            let prev = steps[i];
            steps.set(i, MoveStep { take_offset: prev.take_offset || step.take_offset, drag: prev.drag || step.drag });
            proof {
                let o0 = objs0[i as int];
                assert(step.drag == drags(o0, object_grabbed, h, pressed));
                assert(obj == after_move(o0, object_grabbed, h, pressed));
                if step.drag {
                    assert(drags(objs0[i as int], object_grabbed, hovered@[i as int], pressed));
                }
                assert((exists|k: int|
                    0 <= k < i + 1 && #[trigger] drags(objs0[k], object_grabbed, hovered@[k], pressed))
                    == ((exists|k: int|
                    0 <= k < i && #[trigger] drags(objs0[k], object_grabbed, hovered@[k], pressed))
                    || drags(objs0[i as int], object_grabbed, hovered@[i as int], pressed)));
            }
        }
        proof {
            assert((exists|k: int|
                0 <= k < n && #[trigger] drags(objs0[k], object_grabbed, hovered@[k], pressed)) == any);
        }
    }
    steps
}

// ---------------------------------------------------------------------------
// Plugging a cable into a socket
// ---------------------------------------------------------------------------

/// Plugs a dropped cable into an empty socket: when nothing is grabbed, the
/// socket is empty, the cursor is the open hand (the button was just
/// released over a cable) and the cable's rectangle overlaps the socket's,
/// the socket takes the cable's id and the caller snaps the cable onto the
/// socket (the result says whether).
pub fn grab_overlaps_connect(
    cursor: CursorIcon,
    rects_overlap: bool,
    object_grabbed: i32,
    connected: &mut i32,
    object_id: i32,
) -> (snap: bool)
    ensures
        snap == (object_grabbed == NO_OBJECT && *old(connected) == NO_OBJECT && cursor
            == CursorIcon::Grab && rects_overlap),
        *final(connected) == (if snap {
            object_id
        } else {
            *old(connected)
        }),
{
    if object_grabbed == NO_OBJECT {
        if *connected == NO_OBJECT {
            if cursor == CursorIcon::Grab {
                if rects_overlap {
                    *connected = object_id;
                    return true;
                }
            }
        }
    }
    false
}

// ---------------------------------------------------------------------------
// Checking the connector
// ---------------------------------------------------------------------------

/// Every socket holds a cable.
pub open spec fn all_connected_spec(dests: Seq<static_rect_data_destination>) -> bool {
    forall|i: int| 0 <= i < dests.len() ==> (#[trigger] dests[i]).connected != NO_OBJECT
}

/// A socket holds the cable that belongs in it.
pub open spec fn correct(d: static_rect_data_destination) -> bool {
    d.object_id == d.connected
}

/// The points a check gives: one for each socket with its own cable, minus
/// one for each other socket.
pub open spec fn score(dests: Seq<static_rect_data_destination>) -> int
    decreases dests.len(),
{
    if dests.len() == 0 {
        0
    } else {
        score(dests.drop_last()) + if correct(dests.last()) {
            1int
        } else {
            -1int
        }
    }
}

/// The score lies between minus and plus the number of sockets.
pub proof fn lemma_score_bounds(dests: Seq<static_rect_data_destination>)
    ensures
        -(dests.len() as int) <= score(dests) <= dests.len(),
    decreases dests.len(),
{
    if dests.len() > 0 {
        lemma_score_bounds(dests.drop_last());
    }
}

/// Full marks exactly when every socket holds its own cable, and the lowest
/// score exactly when none does.
pub proof fn lemma_score_full_iff_all_correct(dests: Seq<static_rect_data_destination>)
    ensures
        score(dests) == dests.len() <==> forall|i: int|
            0 <= i < dests.len() ==> correct(#[trigger] dests[i]),
        score(dests) == -(dests.len() as int) <==> forall|i: int|
            0 <= i < dests.len() ==> !correct(#[trigger] dests[i]),
    decreases dests.len(),
{
    if dests.len() > 0 {
        let init = dests.drop_last();
        lemma_score_full_iff_all_correct(init);
        lemma_score_bounds(init);
        assert forall|i: int| 0 <= i < init.len() implies #[trigger] init[i] == dests[i] by {}
        if forall|i: int| 0 <= i < dests.len() ==> correct(#[trigger] dests[i]) {
            assert forall|i: int| 0 <= i < init.len() implies correct(#[trigger] init[i]) by {
                assert(correct(dests[i]));
            }
            assert(correct(dests[dests.len() - 1]));
        }
        if score(dests) == dests.len() {
            assert forall|i: int| 0 <= i < dests.len() implies correct(#[trigger] dests[i]) by {
                if i < init.len() {
                    assert(correct(init[i]));
                }
            }
        }
        if forall|i: int| 0 <= i < dests.len() ==> !correct(#[trigger] dests[i]) {
            assert forall|i: int| 0 <= i < init.len() implies !correct(#[trigger] init[i]) by {
                assert(!correct(dests[i]));
            }
            assert(!correct(dests[dests.len() - 1]));
        }
        if score(dests) == -(dests.len() as int) {
            assert forall|i: int| 0 <= i < dests.len() implies !correct(#[trigger] dests[i]) by {
                if i < init.len() {
                    assert(!correct(init[i]));
                }
            }
        }
    }
}

/// Whether every socket holds a cable.
pub fn all_connected(dests: &Vec<static_rect_data_destination>) -> (res: bool)
    ensures
        res == all_connected_spec(dests@),
{
    let mut i: usize = 0;
    while i < dests.len()
        invariant
            i <= dests.len(),
            forall|k: int| 0 <= k < i ==> (#[trigger] dests@[k]).connected != NO_OBJECT,
        decreases dests.len() - i,
    {
        if dests[i].connected == NO_OBJECT {
            return false;
        }
        i = i + 1;
    }
    true
}

/// The points of a check of `dests`.
pub fn round_score(dests: &Vec<static_rect_data_destination>) -> (points: i32)
    requires
        dests.len() <= i32::MAX,
    ensures
        points == score(dests@),
{
    let mut points: i32 = 0;
    let mut i: usize = 0;
    while i < dests.len()
        invariant
            i <= dests.len(),
            dests.len() <= i32::MAX,
            points == score(dests@.take(i as int)),
        decreases dests.len() - i,
    {
        proof {
            lemma_score_bounds(dests@.take(i as int));
            assert(dests@.take(i + 1).drop_last() =~= dests@.take(i as int));
        }
        if dests[i].object_id == dests[i].connected {
            points = points + 1;
        } else {
            points = points - 1;
        }
        i = i + 1;
    }
    proof {
        assert(dests@.take(dests.len() as int) =~= dests@);
    }
    points
}

/// For each socket, whether it holds its own cable (shown after a check).
pub fn connection_marks(dests: &Vec<static_rect_data_destination>) -> (marks: Vec<bool>)
    ensures
        marks.len() == dests.len(),
        forall|i: int| 0 <= i < dests.len() ==> #[trigger] marks@[i] == correct(dests@[i]),
{
    let mut marks: Vec<bool> = Vec::new();
    for i in 0..dests.len()
        invariant
            marks.len() == i,
            forall|k: int| 0 <= k < i ==> #[trigger] marks@[k] == correct(dests@[k]),
    {
        marks.push(dests[i].object_id == dests[i].connected);
    }
    marks
}

} // verus!
