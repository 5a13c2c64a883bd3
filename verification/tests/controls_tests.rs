use etherust::buttons::{contains_id, manage_all_buttons, press_buttons_with_id, static_rect_button};
use etherust::cables::CursorIcon;
use etherust::sliders::{draw_sliders, flip_sliders, sliders_fit, static_rect_slider};
use etherust::texts::{manage_requested_text, request_text, text_time, texts_fit_now};

fn button(id: i32, frames: i32) -> static_rect_button {
    static_rect_button { button_id: id, clicked_frames: frames }
}

fn slider(id: i32, frames: i32, on: bool, wait: i32) -> static_rect_slider {
    static_rect_slider {
        slider_id: id,
        frames,
        going_mode_on: on,
        clicked_wait: wait,
        text: String::from("slider"),
    }
}

fn timer(id: i32, count: i32) -> text_time {
    text_time { text_id: id, time_static: 300, time_count: count }
}

#[test]
fn button_click_when_ready_and_hovered() {
    let mut buttons = vec![button(0, 0), button(1, 0), button(2, 0)];
    let clicked = manage_all_buttons(&mut buttons, &vec![false, true, false], true, CursorIcon::Grab);
    assert_eq!(clicked, vec![1]);
    assert_eq!(buttons, vec![button(0, 0), button(1, 120), button(2, 0)]);
}

#[test]
fn button_count_down_blocks_clicks() {
    let mut buttons = vec![button(0, 120), button(1, 1)];
    let clicked = manage_all_buttons(&mut buttons, &vec![true, true], true, CursorIcon::Default);
    // the second button's count-down reaches zero this frame, so it takes the click
    assert_eq!(clicked, vec![1]);
    assert_eq!(buttons, vec![button(0, 119), button(1, 120)]);
}

#[test]
fn button_ignores_clicks_while_dragging() {
    let mut buttons = vec![button(0, 0)];
    let clicked = manage_all_buttons(&mut buttons, &vec![true], true, CursorIcon::Grabbing);
    assert!(clicked.is_empty());
    assert_eq!(buttons, vec![button(0, 0)]);
}

#[test]
fn button_shows_pressed_while_counting_down() {
    assert!(button(0, 5).shows_pressed());
    assert!(!button(0, 0).shows_pressed());
}

#[test]
fn press_buttons_sets_full_click_time() {
    let mut buttons = vec![button(2, 0), button(1, 3), button(2, 7)];
    press_buttons_with_id(&mut buttons, 2);
    assert_eq!(buttons, vec![button(2, 120), button(1, 3), button(2, 120)]);
    assert!(contains_id(&vec![4, 2], 2));
    assert!(!contains_id(&vec![4, 2], 3));
}

#[test]
fn slider_knob_moves_towards_its_end_and_stops() {
    let mut sliders = vec![slider(0, 10, true, 0), slider(1, 300, true, 0), slider(2, 0, false, 0), slider(3, 10, false, 0)];
    let clicked = draw_sliders(&mut sliders, &vec![false, false, false, false], true);
    assert!(clicked.is_empty());
    let frames: Vec<i32> = sliders.iter().map(|s| s.frames).collect();
    assert_eq!(frames, vec![11, 300, 0, 9]);
}

#[test]
fn slider_click_starts_wait() {
    let mut sliders = vec![slider(0, 0, false, 0), slider(5, 0, false, 4)];
    let clicked = draw_sliders(&mut sliders, &vec![true, true], true);
    assert_eq!(clicked, vec![0]);
    assert_eq!(sliders[0].clicked_wait, 300);
    assert_eq!(sliders[1].clicked_wait, 3);
    assert_eq!(sliders[0].text, "slider");
}

#[test]
fn slider_flip_returns_last_flipped_state() {
    let mut sliders = vec![slider(0, 0, false, 0), slider(1, 0, false, 0), slider(0, 0, true, 0)];
    let last = flip_sliders(&mut sliders, 0, true);
    assert!(!last);
    let on: Vec<bool> = sliders.iter().map(|s| s.going_mode_on).collect();
    assert_eq!(on, vec![true, false, false]);
    let mut none = vec![slider(1, 0, false, 0)];
    assert!(flip_sliders(&mut none, 0, true));
}

#[test]
fn slider_fit_rejects_overflowing_frames() {
    assert!(sliders_fit(&vec![slider(0, 300, true, 300)]));
    assert!(!sliders_fit(&vec![slider(0, i32::MAX, true, 0)]));
    assert!(!sliders_fit(&vec![slider(0, 0, false, i32::MIN)]));
}

#[test]
fn requested_text_counts_down() {
    let mut texts = vec![timer(0, 300), timer(1, 300)];
    let mut ids = vec![0];
    let drawn = manage_requested_text(&mut texts, &mut ids);
    assert_eq!(drawn, vec![0]);
    assert_eq!(texts, vec![timer(0, 299), timer(1, 300)]);
    assert_eq!(ids, vec![0]);
}

#[test]
fn requested_text_expires_and_is_removed() {
    let mut texts = vec![timer(0, 1), timer(1, 5)];
    let mut ids = vec![1, 0];
    let drawn = manage_requested_text(&mut texts, &mut ids);
    assert_eq!(drawn, vec![1, 0]);
    assert_eq!(texts, vec![timer(0, 300), timer(1, 4)]);
    assert_eq!(ids, vec![1]);
}

#[test]
fn requested_text_with_repeated_messages() {
    // two messages share id 0, as after two resets; both count down, both expire,
    // and the single request is taken out once
    let mut texts = vec![timer(0, 1), timer(1, 300), timer(0, 1)];
    let mut ids = vec![0, 1];
    let drawn = manage_requested_text(&mut texts, &mut ids);
    assert_eq!(drawn, vec![0, 2, 1]);
    assert_eq!(texts, vec![timer(0, 300), timer(1, 299), timer(0, 300)]);
    assert_eq!(ids, vec![1]);
}

#[test]
fn request_text_adds_once() {
    let mut ids = vec![1];
    request_text(&mut ids, 0);
    request_text(&mut ids, 0);
    request_text(&mut ids, 1);
    assert_eq!(ids, vec![1, 0]);
}

#[test]
fn texts_fit_rejects_underflow() {
    assert!(texts_fit_now(&vec![timer(0, 300)], &vec![0]));
    assert!(!texts_fit_now(&vec![timer(0, i32::MIN)], &vec![0]));
    assert!(texts_fit_now(&vec![timer(0, i32::MIN)], &vec![1]));
}

#[test]
fn message_shows_for_exactly_its_count() {
    let mut texts = vec![timer(0, 3), timer(1, 300)];
    let mut ids = vec![0];
    manage_requested_text(&mut texts, &mut ids);
    assert_eq!(ids, vec![0]);
    manage_requested_text(&mut texts, &mut ids);
    assert_eq!(ids, vec![0]);
    assert_eq!(texts[0].time_count, 1);
    manage_requested_text(&mut texts, &mut ids);
    assert!(ids.is_empty());
    assert_eq!(texts[0].time_count, 300);
}

#[test]
fn button_clicked_again_only_after_full_countdown() {
    let mut buttons = vec![button(0, 0)];
    assert_eq!(manage_all_buttons(&mut buttons, &vec![true], true, CursorIcon::Default), vec![0]);
    for _ in 0..119 {
        assert!(manage_all_buttons(&mut buttons, &vec![true], true, CursorIcon::Default).is_empty());
    }
    assert_eq!(manage_all_buttons(&mut buttons, &vec![true], true, CursorIcon::Default), vec![0]);
}

#[test]
fn slider_clicked_again_only_after_wait_and_knob_stops_at_end() {
    let mut sliders = vec![slider(0, 295, true, 0)];
    assert_eq!(draw_sliders(&mut sliders, &vec![true], true), vec![0]);
    for _ in 0..300 {
        assert!(draw_sliders(&mut sliders, &vec![true], true).is_empty());
    }
    assert_eq!(sliders[0].frames, 300);
    assert_eq!(draw_sliders(&mut sliders, &vec![true], true), vec![0]);
}
