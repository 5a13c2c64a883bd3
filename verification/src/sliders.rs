use vstd::prelude::*;
use crate::rules::{SLIDER_MAX_FRAMES, SLIDER_WAIT_FRAMES};

verus! {

/// An on/off slider of the settings screen. `frames` is the position of its
/// knob, counted in animation frames from the "off" end (0) to the "on" end
/// (`SLIDER_MAX_FRAMES`); `clicked_wait` the frames left before it takes
/// another click. Its position on screen is kept by the drawing side.
pub struct static_rect_slider {
    pub slider_id: i32,
    pub frames: i32,
    pub going_mode_on: bool,
    pub clicked_wait: i32,
    pub text: String,
}

/// The knob position after one frame: it moves one frame towards the end
/// that the slider's state points to, and stops there.
pub open spec fn frames_after(s: static_rect_slider) -> int {
    if !s.going_mode_on {
        if s.frames != 0 {
            s.frames - 1
        } else {
            s.frames as int
        }
    } else {
        if s.frames != SLIDER_MAX_FRAMES {
            s.frames + 1
        } else {
            s.frames as int
        }
    }
}

/// The slider is clicked this frame: it waits for no earlier click, the
/// mouse is over it and the button is pressed.
pub open spec fn slider_clicked(s: static_rect_slider, hovered: bool, pressed: bool) -> bool {
    s.clicked_wait == 0 && hovered && pressed
}

/// The wait after one frame: a click starts it anew, otherwise it counts down.
pub open spec fn wait_after(s: static_rect_slider, hovered: bool, pressed: bool) -> int {
    if s.clicked_wait == 0 {
        if hovered && pressed {
            SLIDER_WAIT_FRAMES as int
        } else {
            0
        }
    } else {
        s.clicked_wait - 1
    }
}

/// The frame's arithmetic on the slider stays within `i32`.
pub open spec fn slider_step_fits(s: static_rect_slider) -> bool {
    &&& i32::MIN <= frames_after(s) <= i32::MAX
    &&& i32::MIN <= s.clicked_wait - 1
}

/// The slider after one frame, field by field, against the slider before it.
pub open spec fn slider_stepped(
    before: static_rect_slider,
    after: static_rect_slider,
    hovered: bool,
    pressed: bool,
) -> bool {
    &&& after.slider_id == before.slider_id
    &&& after.going_mode_on == before.going_mode_on
    &&& after.text == before.text
    &&& after.frames == frames_after(before)
    &&& after.clicked_wait == wait_after(before, hovered, pressed)
}

/// The ids of the sliders clicked this frame, in order.
pub open spec fn clicked_slider_ids(
    sliders: Seq<static_rect_slider>,
    hovered: Seq<bool>,
    pressed: bool,
) -> Seq<i32>
    decreases sliders.len(),
{
    if sliders.len() == 0 {
        Seq::empty()
    } else {
        let last = sliders.len() - 1;
        let prev = clicked_slider_ids(sliders.drop_last(), hovered.take(last), pressed);
        if slider_clicked(sliders[last], hovered[last], pressed) {
            prev.push(sliders[last].slider_id)
        } else {
            prev
        }
    }
}

/// One frame of the settings sliders: each knob moves one step towards its
/// end, each wait counts down, and a slider that waits for nothing is
/// clicked when the mouse is over it and the button is pressed. Returns the
/// ids of the clicked sliders. `hovered[i]` says whether the mouse is over
/// `sliders[i]`. The knob is drawn at the position it had before the call.
pub fn draw_sliders(sliders: &mut Vec<static_rect_slider>, hovered: &Vec<bool>, pressed: bool) -> (clicked: Vec<i32>)
    requires
        hovered.len() == old(sliders).len(),
        forall|i: int| 0 <= i < old(sliders).len() ==> slider_step_fits(#[trigger] old(sliders)@[i]),
    ensures
        final(sliders).len() == old(sliders).len(),
        forall|i: int|
            0 <= i < old(sliders).len() ==> slider_stepped(
                old(sliders)@[i],
                #[trigger] final(sliders)@[i],
                hovered@[i],
                pressed,
            ),
        clicked@ == clicked_slider_ids(old(sliders)@, hovered@, pressed),
{
    let ghost s0 = sliders@;
    let n = sliders.len();
    let mut clicked: Vec<i32> = Vec::new();
    for i in 0..n
        invariant
            n == sliders.len(),
            n == hovered.len(),
            n == s0.len(),
            forall|k: int| 0 <= k < n ==> slider_step_fits(#[trigger] s0[k]),
            forall|k: int|
                0 <= k < i ==> slider_stepped(s0[k], #[trigger] sliders@[k], hovered@[k], pressed),
            forall|k: int| i <= k < n ==> #[trigger] sliders@[k] == s0[k],
            clicked@ == clicked_slider_ids(s0.take(i as int), hovered@.take(i as int), pressed),
    {
        proof {
            assert(s0.take(i + 1).drop_last() =~= s0.take(i as int));
            assert(hovered@.take(i + 1).take(i as int) =~= hovered@.take(i as int));
            assert(slider_step_fits(s0[i as int]));
        }
        let slider = &mut sliders[i];
        if slider.going_mode_on == false {
            if slider.frames != 0 {
                slider.frames = slider.frames - 1;
            }
        }
        if slider.going_mode_on == true {
            if slider.frames != SLIDER_MAX_FRAMES {
                slider.frames = slider.frames + 1;
            }
        }
        if slider.clicked_wait == 0 {
            if hovered[i] {
                if pressed {
                    clicked.push(slider.slider_id);
                    slider.clicked_wait = SLIDER_WAIT_FRAMES;
                }
            }
        } else {
            slider.clicked_wait = slider.clicked_wait - 1;
        }
    }
    proof {
        assert(s0.take(n as int) =~= s0);
        assert(hovered@.take(n as int) =~= hovered@);
    }
    clicked
}

/// Whether a frame of the sliders keeps their arithmetic within `i32` (the
/// condition of `draw_sliders`).
pub fn sliders_fit(sliders: &Vec<static_rect_slider>) -> (ok: bool)
    ensures
        ok == forall|i: int| 0 <= i < sliders@.len() ==> slider_step_fits(#[trigger] sliders@[i]),
{
    let mut i: usize = 0;
    while i < sliders.len()
        invariant
            i <= sliders.len(),
            forall|k: int| 0 <= k < i ==> slider_step_fits(#[trigger] sliders@[k]),
        decreases sliders.len() - i,
    {
        let s = &sliders[i];
        if s.clicked_wait == i32::MIN {
            return false;
        }
        if !s.going_mode_on && s.frames != 0 && s.frames == i32::MIN {
            return false;
        }
        if s.going_mode_on && s.frames != SLIDER_MAX_FRAMES && s.frames == i32::MAX {
            return false;
        }
        i = i + 1;
    }
    true
}

/// Flips every slider with id `id` and returns the state the last of them
/// was flipped to (`current` when there is none).
pub fn flip_sliders(sliders: &mut Vec<static_rect_slider>, id: i32, current: bool) -> (last: bool)
    ensures
        final(sliders).len() == old(sliders).len(),
        forall|i: int|
            0 <= i < old(sliders).len() ==> {
                &&& (#[trigger] final(sliders)@[i]).slider_id == old(sliders)@[i].slider_id
                &&& final(sliders)@[i].frames == old(sliders)@[i].frames
                &&& final(sliders)@[i].clicked_wait == old(sliders)@[i].clicked_wait
                &&& final(sliders)@[i].text == old(sliders)@[i].text
                &&& final(sliders)@[i].going_mode_on == (if old(sliders)@[i].slider_id == id {
                    !old(sliders)@[i].going_mode_on
                } else {
                    old(sliders)@[i].going_mode_on
                })
            },
        last == last_flip(old(sliders)@, id, current),
{
    let ghost s0 = sliders@;
    let n = sliders.len();
    let mut last = current;
    for i in 0..n
        invariant
            n == sliders.len(),
            n == s0.len(),
            forall|k: int|
                0 <= k < i ==> {
                    &&& (#[trigger] sliders@[k]).slider_id == s0[k].slider_id
                    &&& sliders@[k].frames == s0[k].frames
                    &&& sliders@[k].clicked_wait == s0[k].clicked_wait
                    &&& sliders@[k].text == s0[k].text
                    &&& sliders@[k].going_mode_on == (if s0[k].slider_id == id {
                        !s0[k].going_mode_on
                    } else {
                        s0[k].going_mode_on
                    })
                },
            forall|k: int| i <= k < n ==> #[trigger] sliders@[k] == s0[k],
            last == last_flip(s0.take(i as int), id, current),
    {
        proof {
            assert(s0.take(i + 1).drop_last() =~= s0.take(i as int));
        }
        let slider = &mut sliders[i];
        if slider.slider_id == id {
            if slider.going_mode_on == true {
                slider.going_mode_on = false;
                last = false;
            } else {
                slider.going_mode_on = true;
                last = true;
            }
        }
    }
    proof {
        assert(s0.take(n as int) =~= s0);
    }
    last
}

/// The state that the last slider with id `id` is flipped to, or `current`.
pub open spec fn last_flip(sliders: Seq<static_rect_slider>, id: i32, current: bool) -> bool
    decreases sliders.len(),
{
    if sliders.len() == 0 {
        current
    } else if sliders.last().slider_id == id {
        !sliders.last().going_mode_on
    } else {
        last_flip(sliders.drop_last(), id, current)
    }
}

} // verus!
