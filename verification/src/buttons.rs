use vstd::prelude::*;
use crate::cables::CursorIcon;
use crate::rules::BUTTON_CLICK_FRAMES;

verus! {

/// A clickable button: its id and the frames left during which it shows its
/// pressed image and cannot be clicked. Rectangle, colour and images are
/// kept by the drawing side, in the same order.
#[derive(Clone, Copy, Debug, PartialEq, Eq, Structural)]
pub struct static_rect_button {
    pub button_id: i32,
    pub clicked_frames: i32,
}

impl static_rect_button {
    /// The button is drawn with its pressed image this frame.
    pub fn shows_pressed(&self) -> (res: bool)
        ensures
            res == (self.clicked_frames > 0),
    {
        self.clicked_frames > 0
    }
}

/// The count-down of a button after this frame's tick.
pub open spec fn ticked_frames(b: static_rect_button) -> i32 {
    if b.clicked_frames > 0 {
        (b.clicked_frames - 1) as i32
    } else {
        b.clicked_frames
    }
}

/// A button is clicked this frame: the cursor is not dragging a cable, its
/// count-down has run out, the mouse is over it and the button is pressed.
pub open spec fn button_clicked(
    b: static_rect_button,
    hovered: bool,
    pressed: bool,
    cursor: CursorIcon,
) -> bool {
    cursor != CursorIcon::Grabbing && ticked_frames(b) == 0 && hovered && pressed
}

/// The button after one frame: a click restarts its count-down.
pub open spec fn button_after(
    b: static_rect_button,
    hovered: bool,
    pressed: bool,
    cursor: CursorIcon,
) -> static_rect_button {
    static_rect_button {
        button_id: b.button_id,
        clicked_frames: if button_clicked(b, hovered, pressed, cursor) {
            BUTTON_CLICK_FRAMES
        } else {
            ticked_frames(b)
        },
    }
}

/// A row of buttons after one frame (see `manage_all_buttons`).
pub open spec fn buttons_after(
    buttons: Seq<static_rect_button>,
    hovered: Seq<bool>,
    pressed: bool,
    cursor: CursorIcon,
) -> Seq<static_rect_button> {
    Seq::new(buttons.len(), |i: int| button_after(buttons[i], hovered[i], pressed, cursor))
}

/// The ids of the buttons clicked this frame, in order.
pub open spec fn clicked_ids(
    buttons: Seq<static_rect_button>,
    hovered: Seq<bool>,
    pressed: bool,
    cursor: CursorIcon,
) -> Seq<i32>
    decreases buttons.len(),
{
    if buttons.len() == 0 {
        Seq::empty()
    } else {
        let last = buttons.len() - 1;
        let prev = clicked_ids(buttons.drop_last(), hovered.take(last), pressed, cursor);
        if button_clicked(buttons[last], hovered[last], pressed, cursor) {
            prev.push(buttons[last].button_id)
        } else {
            prev
        }
    }
}

/// One frame of a row of buttons: every count-down ticks, and a button
/// whose count-down has run out is clicked when the mouse is over it and
/// the button is pressed, unless a cable is being dragged. Returns the ids
/// of the clicked buttons. `hovered[i]` says whether the mouse is over
/// `vector[i]`; `cursor` is the cursor set for this frame.
pub fn manage_all_buttons(
    vector: &mut Vec<static_rect_button>,
    hovered: &Vec<bool>,
    pressed: bool,
    cursor: CursorIcon,
) -> (clicked: Vec<i32>)
    requires
        hovered.len() == old(vector).len(),
    ensures
        final(vector).len() == old(vector).len(),
        forall|i: int|
            0 <= i < old(vector).len() ==> #[trigger] final(vector)@[i] == button_after(
                old(vector)@[i],
                hovered@[i],
                pressed,
                cursor,
            ),
        clicked@ == clicked_ids(old(vector)@, hovered@, pressed, cursor),
{
    let ghost v0 = vector@;
    let n = vector.len();
    let mut clicked: Vec<i32> = Vec::new();
    for i in 0..n
        invariant
            n == vector.len(),
            n == hovered.len(),
            n == v0.len(),
            forall|k: int|
                0 <= k < i ==> #[trigger] vector@[k] == button_after(v0[k], hovered@[k], pressed, cursor),
            forall|k: int| i <= k < n ==> #[trigger] vector@[k] == v0[k],
            clicked@ == clicked_ids(v0.take(i as int), hovered@.take(i as int), pressed, cursor),
    {
        proof {
            assert(v0.take(i + 1).drop_last() =~= v0.take(i as int));
            assert(hovered@.take(i + 1).take(i as int) =~= hovered@.take(i as int));
        }
        let mut button = vector[i];
        if button.clicked_frames > 0 {
            button.clicked_frames = button.clicked_frames - 1;
        }
        if cursor != CursorIcon::Grabbing {
            if button.clicked_frames == 0 {
                if hovered[i] {
                    if pressed {
                        clicked.push(button.button_id);
                        button.clicked_frames = BUTTON_CLICK_FRAMES;
                    }
                }
            }
        }
        vector.set(i, button);
    }
    proof {
        assert(v0.take(n as int) =~= v0);
        assert(hovered@.take(n as int) =~= hovered@);
    }
    clicked
}

/// Whether `id` is among `ids`.
pub fn contains_id(ids: &Vec<i32>, id: i32) -> (res: bool)
    ensures
        res == ids@.contains(id),
{
    let mut i: usize = 0;
    while i < ids.len()
        invariant
            i <= ids.len(),
            forall|k: int| 0 <= k < i ==> ids@[k] != id,
        decreases ids.len() - i,
    {
        if ids[i] == id {
            return true;
        }
        i = i + 1;
    }
    false
}

/// Sets the count-down of every button with id `id` to the full click time.
pub fn press_buttons_with_id(buttons: &mut Vec<static_rect_button>, id: i32)
    ensures
        final(buttons).len() == old(buttons).len(),
        forall|i: int|
            0 <= i < old(buttons).len() ==> #[trigger] final(buttons)@[i] == (if old(buttons)@[i].button_id
                == id {
                static_rect_button { button_id: id, clicked_frames: BUTTON_CLICK_FRAMES }
            } else {
                old(buttons)@[i]
            }),
{
    let ghost b0 = buttons@;
    let n = buttons.len();
    for i in 0..n
        invariant
            n == buttons.len(),
            n == b0.len(),
            forall|k: int|
                0 <= k < i ==> #[trigger] buttons@[k] == (if b0[k].button_id == id {
                    static_rect_button { button_id: id, clicked_frames: BUTTON_CLICK_FRAMES }
                } else {
                    b0[k]
                }),
            forall|k: int| i <= k < n ==> #[trigger] buttons@[k] == b0[k],
    {
        if buttons[i].button_id == id {
            buttons[i].clicked_frames = BUTTON_CLICK_FRAMES;
        }
    }
}

} // verus!
