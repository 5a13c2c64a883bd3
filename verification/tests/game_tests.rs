use etherust::buttons::static_rect_button;
use etherust::cables::{static_rect_data, static_rect_data_destination, CursorIcon, MoveStep};
use etherust::rules::NO_OBJECT;
use etherust::setup::{draw_round_picks, mode_name, placed_right_now, shuffle_with, split_cables, texture_order, Wiring};
use etherust::state::{declare_variables, declare_variables_with, MainState, Settings};

fn sorted_ids(state: &MainState) -> Vec<i32> {
    let mut ids: Vec<i32> = state.static_objects.iter().map(|o| o.object_id).collect();
    ids.sort();
    ids
}

fn socket(id: i32, connected: i32) -> static_rect_data_destination {
    static_rect_data_destination { object_id: id, connected }
}

#[test]
fn new_settings_clear_everything() {
    let s = Settings::new();
    assert!(s.clear_mode);
    assert!(s.sliders.is_empty());
    assert!(s.buttons.is_empty());
}

#[test]
fn new_state_is_empty() {
    let s = MainState::new();
    assert!(s.static_objects.is_empty());
    assert_eq!(s.object_grabbed, NO_OBJECT);
    assert_eq!(s.points, 0);
    assert!(!s.pause);
    assert_eq!(s.mode, "");
    assert_eq!(s.show_mode, 0);
}

#[test]
fn deal_with_pick_zero_is_t568b() {
    let mut s = MainState::new();
    let w = declare_variables_with(&mut s, 0, &vec![]);
    assert_eq!(w, Wiring::T568B);
    assert_eq!(s.mode, "T568B");
    let ids: Vec<i32> = s.static_objects.iter().map(|o| o.object_id).collect();
    assert_eq!(ids, vec![0, 1, 2, 3, 4, 5, 6, 7]);
    let dests: Vec<_> = (0..8).map(|i| socket(i, NO_OBJECT)).collect();
    assert_eq!(s.static_objects_destination, dests);
    assert_eq!(
        s.static_buttons,
        vec![
            static_rect_button { button_id: 0, clicked_frames: 120 },
            static_rect_button { button_id: 1, clicked_frames: 0 },
            static_rect_button { button_id: 2, clicked_frames: 0 }
        ]
    );
    assert_eq!(s.timed_text.len(), 2);
    assert_eq!(s.settings.sliders.len(), 1);
    assert_eq!(s.settings.sliders[0].text, "If True, reset clears only not guessed cables");
    assert_eq!(s.settings.buttons, vec![static_rect_button { button_id: 2, clicked_frames: 0 }]);
}

#[test]
fn deal_with_other_pick_is_t568a_and_mixes() {
    let mut s = MainState::new();
    let w = declare_variables_with(&mut s, 1, &vec![0, 0, 5]);
    assert_eq!(w, Wiring::T568A);
    assert_eq!(s.mode, "T568A");
    let ids: Vec<i32> = s.static_objects.iter().map(|o| o.object_id).collect();
    // [0..8] -> take 0 -> [1..8,0] -> take 1 -> [2..8,0,1] -> take 7 (index 5) -> ...
    assert_eq!(ids, vec![2, 3, 4, 5, 6, 0, 1, 7]);
}

#[test]
fn second_deal_adds_messages_slider_and_button_again() {
    let mut s = MainState::new();
    declare_variables_with(&mut s, 0, &vec![]);
    s.points = 5;
    s.requested_text = vec![1];
    declare_variables_with(&mut s, 0, &vec![]);
    assert_eq!(s.timed_text.len(), 4);
    assert_eq!(s.settings.sliders.len(), 2);
    assert_eq!(s.settings.buttons.len(), 2);
    assert_eq!(s.points, 5);
    assert_eq!(s.requested_text, vec![1]);
}

#[test]
fn random_deal_uses_each_cable_once() {
    for _ in 0..50 {
        let mut s = MainState::new();
        let w = declare_variables(&mut s);
        assert_eq!(sorted_ids(&s), vec![0, 1, 2, 3, 4, 5, 6, 7]);
        assert_eq!(s.mode, mode_name(w));
    }
}

#[test]
fn wiring_orders() {
    assert_eq!(texture_order(Wiring::T568B), vec![0, 1, 2, 3, 4, 5, 6, 7]);
    assert_eq!(texture_order(Wiring::T568A), vec![2, 5, 0, 3, 4, 1, 6, 7]);
    assert_eq!(mode_name(Wiring::T568A), "T568A");
}

#[test]
fn shuffle_moves_picked_item_to_end() {
    let mut v = vec![10, 20, 30];
    shuffle_with(&mut v, &vec![1, 0]);
    assert_eq!(v, vec![30, 20, 10]);
}

fn filled_state(connections: Vec<i32>) -> MainState {
    let mut s = MainState::new();
    declare_variables_with(&mut s, 0, &vec![]);
    for (i, c) in connections.into_iter().enumerate() {
        s.static_objects_destination[i].connected = c;
    }
    s
}

#[test]
fn check_scores_full_connector_and_pauses() {
    let mut s = filled_state(vec![0, 1, 2, 3, 4, 5, 7, 6]);
    s.points = 3;
    assert!(s.check_fits_now());
    s.check_connections();
    assert!(s.pause);
    assert_eq!(s.points, 3 + 6 - 2);
    assert!(s.requested_text.is_empty());
    s.check_connections();
    assert_eq!(s.points, 7);
    assert_eq!(s.requested_text, vec![1]);
}

#[test]
fn check_with_empty_socket_asks_to_connect() {
    let mut s = filled_state(vec![0, 1, 2, 3, 4, 5, 6, NO_OBJECT]);
    s.check_connections();
    assert!(!s.pause);
    assert_eq!(s.points, 0);
    assert_eq!(s.requested_text, vec![0]);
    s.check_connections();
    assert_eq!(s.requested_text, vec![0]);
}

#[test]
fn check_fit_detects_overflow() {
    let mut s = filled_state(vec![0, 1, 2, 3, 4, 5, 6, 7]);
    s.points = i32::MAX - 3;
    assert!(!s.check_fits_now());
    s.points = i32::MAX - 8;
    assert!(s.check_fits_now());
}

#[test]
fn main_buttons_reset_then_check() {
    let mut s = filled_state(vec![0, 1, 2, 3, 4, 5, 6, 7]);
    s.pause = true;
    s.handle_main_buttons_with(&vec![1, 0], 1, &vec![]);
    // the reset comes first: the fresh connector is empty, so the check asks to connect
    assert!(!s.pause);
    assert_eq!(s.mode, "T568A");
    assert_eq!(s.requested_text, vec![0]);
    assert_eq!(s.points, 0);
}

#[test]
fn main_buttons_settings_opens_settings() {
    let mut s = filled_state(vec![]);
    let dealt = s.handle_main_buttons(&vec![2]);
    assert!(dealt.is_none());
    assert_eq!(s.show_mode, 1);
    assert_eq!(s.settings.buttons[0].clicked_frames, 120);
}

#[test]
fn main_buttons_reset_deals_random_round() {
    let mut s = filled_state(vec![0, 1, 2, 3, 4, 5, 6, 7]);
    s.pause = true;
    let dealt = s.handle_main_buttons(&vec![0]);
    let w = dealt.expect("a reset deals a round");
    assert_eq!(s.mode, mode_name(w));
    assert!(!s.pause);
    assert_eq!(sorted_ids(&s), vec![0, 1, 2, 3, 4, 5, 6, 7]);
}

#[test]
fn settings_slider_flips_clear_mode_and_button_closes() {
    let mut s = filled_state(vec![]);
    s.show_mode = 1;
    // slider on: a reset clears only the cables not placed right
    s.handle_settings_clicks(&vec![0], &vec![]);
    assert!(s.settings.sliders[0].going_mode_on);
    assert!(!s.settings.clear_mode);
    s.handle_settings_clicks(&vec![0], &vec![2]);
    assert!(!s.settings.sliders[0].going_mode_on);
    assert!(s.settings.clear_mode);
    assert_eq!(s.show_mode, 0);
    assert_eq!(s.static_buttons[2].clicked_frames, 120);
}

#[test]
fn paused_game_moves_nothing() {
    let mut s = filled_state(vec![]);
    s.pause = true;
    s.object_grabbed = 3;
    let hovered = vec![true; 8];
    let steps = s.move_cables(&hovered, true);
    assert!(steps.iter().all(|st| *st == MoveStep { take_offset: false, drag: false }));
    assert!(s.static_objects.iter().all(|o| !o.object_grabbed));
}

#[test]
fn frame_of_dragging_and_plugging() {
    let mut s = filled_state(vec![]);
    let mut hovered = vec![false; 8];
    hovered[3] = true;
    // press over cable 3: it is grabbed
    let cursor = s.hover_cables(&hovered, true);
    assert_eq!(cursor, CursorIcon::Grabbing);
    assert_eq!(s.object_grabbed, 3);
    let steps = s.move_cables(&hovered, true);
    assert_eq!(steps[3], MoveStep { take_offset: true, drag: true });
    assert_eq!(s.static_objects[3], static_rect_data { object_grabbed: true, object_id: 3 });
    // release over it: dropped, open hand
    let steps = s.move_cables(&hovered, false);
    assert_eq!(steps[3], MoveStep { take_offset: false, drag: false });
    let cursor = s.hover_cables(&hovered, false);
    assert_eq!(cursor, CursorIcon::Grab);
    assert_eq!(s.object_grabbed, NO_OBJECT);
    // it lies over socket 5: plugged there
    assert!(!s.plug_cable(cursor, 5, 3, false));
    assert!(s.plug_cable(cursor, 5, 3, true));
    assert_eq!(s.static_objects_destination[5].connected, 3);
    assert!(!s.plug_cable(cursor, 5, 2, true));
}

#[test]
fn requested_texts_shown_through_state() {
    let mut s = filled_state(vec![]);
    s.requested_text = vec![1];
    let drawn = s.show_requested_texts();
    assert_eq!(drawn, vec![1]);
    assert_eq!(s.timed_text[1].time_count, 299);
    assert_eq!(s.timed_text[0].time_count, 300);
}

#[test]
fn reset_with_clear_mode_off_keeps_cables_placed_right() {
    // cables 1 and 4 sit in their own sockets, cable 2 in socket 3
    let mut s = filled_state(vec![NO_OBJECT, 1, NO_OBJECT, 2, 4, NO_OBJECT, NO_OBJECT, NO_OBJECT]);
    s.settings.clear_mode = false;
    let w = declare_variables_with(&mut s, 0, &vec![0]);
    assert_eq!(w, Wiring::T568B);
    let mut expected: Vec<_> = (0..8).map(|i| socket(i, NO_OBJECT)).collect();
    expected[1] = socket(1, 1);
    expected[4] = socket(4, 4);
    assert_eq!(s.static_objects_destination, expected);
    let ids: Vec<i32> = s.static_objects.iter().map(|o| o.object_id).collect();
    // the kept cables first, then the others mixed: [0,2,3,5,6,7] -> take 0 -> [2,3,5,6,7,0]
    assert_eq!(ids, vec![1, 4, 2, 3, 5, 6, 7, 0]);
    assert_eq!(s.cable_sockets(), vec![Some(1), Some(4), None, None, None, None, None, None]);
}

#[test]
fn reset_with_clear_mode_on_empties_every_socket() {
    let mut s = filled_state(vec![0, 1, 2, 3, 4, 5, 6, 7]);
    assert!(s.settings.clear_mode);
    declare_variables_with(&mut s, 0, &vec![]);
    let empty: Vec<_> = (0..8).map(|i| socket(i, NO_OBJECT)).collect();
    assert_eq!(s.static_objects_destination, empty);
}

#[test]
fn reset_keeping_every_cable_can_be_scored_again() {
    let mut s = filled_state(vec![0, 1, 2, 3, 4, 5, 6, 7]);
    s.settings.clear_mode = false;
    s.pause = true;
    s.points = 8;
    assert!(s.main_buttons_fit(&vec![0, 1]));
    let dealt = s.handle_main_buttons(&vec![0, 1]);
    assert!(dealt.is_some());
    assert!(s.pause);
    assert_eq!(s.points, 16);
    s.points = i32::MAX - 4;
    s.pause = true;
    assert!(!s.main_buttons_fit(&vec![0, 1]));
}

#[test]
fn split_and_picks_for_a_partial_reset() {
    let dests: Vec<_> = (0..8).map(|i| socket(i, if i == 6 { 6 } else { NO_OBJECT })).collect();
    assert!(placed_right_now(&dests, 6));
    assert!(!placed_right_now(&dests, 5));
    let (kept, redealt) = split_cables(&dests, false);
    assert_eq!(kept, vec![static_rect_data { object_grabbed: false, object_id: 6 }]);
    assert_eq!(redealt.len(), 7);
    let (kept, redealt) = split_cables(&dests, true);
    assert!(kept.is_empty());
    assert_eq!(redealt.len(), 8);
    let (pick, moves) = draw_round_picks(3);
    assert!(pick < 2);
    assert_eq!(moves.len(), 20);
    assert!(moves.iter().all(|m| *m < 3));
    let (_, none) = draw_round_picks(0);
    assert!(none.is_empty());
}

#[test]
fn overflow_matters_only_when_check_is_clicked() {
    let mut s = filled_state(vec![0, 1, 2, 3, 4, 5, 6, 7]);
    s.points = i32::MAX;
    assert!(s.main_buttons_fit(&vec![2]));
    assert!(!s.main_buttons_fit(&vec![1]));
    s.handle_main_buttons_with(&vec![2], 0, &vec![]);
    assert_eq!(s.show_mode, 1);
    assert_eq!(s.points, i32::MAX);
}

#[test]
fn main_buttons_frame_clicks_and_handles() {
    let mut s = filled_state(vec![0, 1, 2, 3, 4, 5, 6, 7]);
    // the reset button still counts down after the deal; check and settings are ready
    let hovered = vec![false, true, false];
    assert_eq!(s.main_buttons_clicked(&hovered, true, CursorIcon::Default), vec![1]);
    assert!(s.main_buttons_frame_fits(&hovered, true, CursorIcon::Default));
    let clicked = s.main_buttons_frame_with(&hovered, true, CursorIcon::Default, 0, &vec![]);
    assert_eq!(clicked, vec![1]);
    assert!(s.pause);
    assert_eq!(s.points, 8);
    assert_eq!(s.static_buttons[1].clicked_frames, 120);
    assert_eq!(s.static_buttons[0].clicked_frames, 119);
}

#[test]
fn main_buttons_frame_ignores_clicks_while_dragging() {
    let mut s = filled_state(vec![]);
    let (clicked, dealt) = s.main_buttons_frame(&vec![false, false, true], true, CursorIcon::Grabbing);
    assert!(clicked.is_empty());
    assert!(dealt.is_none());
    assert_eq!(s.show_mode, 0);
}

#[test]
fn settings_frame_opened_this_frame_does_not_close() {
    let mut s = filled_state(vec![]);
    let (_, _) = s.main_buttons_frame(&vec![false, false, true], true, CursorIcon::Default);
    assert_eq!(s.show_mode, 1);
    let (sliders, buttons) = s.settings_frame(&vec![false], &vec![true], true, CursorIcon::Default);
    assert!(sliders.is_empty());
    assert!(buttons.is_empty());
    assert_eq!(s.show_mode, 1);
}

#[test]
fn settings_frame_slider_and_close() {
    let mut s = filled_state(vec![]);
    s.show_mode = 1;
    let (sliders, buttons) = s.settings_frame(&vec![true], &vec![true], true, CursorIcon::Default);
    assert_eq!(sliders, vec![0]);
    assert_eq!(buttons, vec![2]);
    assert!(s.settings.sliders[0].going_mode_on);
    assert_eq!(s.settings.sliders[0].clicked_wait, 300);
    assert!(!s.settings.clear_mode);
    assert_eq!(s.show_mode, 0);
}
