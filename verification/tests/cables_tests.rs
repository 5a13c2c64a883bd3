use etherust::cables::{
    all_connected, connection_marks, grab_overlaps_connect, manage_objects, move_object,
    move_objects, round_score, static_rect_data, static_rect_data_destination, CursorIcon,
    MoveStep,
};
use etherust::rules::NO_OBJECT;

fn cable(id: i32, held: bool) -> static_rect_data {
    static_rect_data { object_grabbed: held, object_id: id }
}

fn socket(id: i32, connected: i32) -> static_rect_data_destination {
    static_rect_data_destination { object_id: id, connected }
}

#[test]
fn hover_and_press_grabs_first_hovered_cable() {
    let objects = vec![cable(4, false), cable(2, false), cable(6, false)];
    let mut grabbed = NO_OBJECT;
    let cursor = manage_objects(&objects, &vec![false, true, true], true, &mut grabbed);
    assert_eq!(cursor, CursorIcon::Grabbing);
    assert_eq!(grabbed, 2);
}

#[test]
fn hover_keeps_an_already_grabbed_cable() {
    let objects = vec![cable(4, false), cable(2, false)];
    let mut grabbed = 4;
    let cursor = manage_objects(&objects, &vec![false, true], true, &mut grabbed);
    assert_eq!(cursor, CursorIcon::Grabbing);
    assert_eq!(grabbed, 4);
}

#[test]
fn hover_without_press_shows_open_hand_and_releases() {
    let objects = vec![cable(0, false), cable(1, false)];
    let mut grabbed = 1;
    let cursor = manage_objects(&objects, &vec![true, false], false, &mut grabbed);
    assert_eq!(cursor, CursorIcon::Grab);
    assert_eq!(grabbed, NO_OBJECT);
}

#[test]
fn no_hover_shows_default_cursor_and_releases() {
    let objects = vec![cable(0, false), cable(1, false)];
    let mut grabbed = 0;
    let cursor = manage_objects(&objects, &vec![false, false], true, &mut grabbed);
    assert_eq!(cursor, CursorIcon::Default);
    assert_eq!(grabbed, NO_OBJECT);
}

#[test]
fn hover_skips_cable_whose_id_is_the_empty_mark() {
    let objects = vec![cable(NO_OBJECT, false), cable(3, false)];
    let mut grabbed = NO_OBJECT;
    manage_objects(&objects, &vec![true, true], true, &mut grabbed);
    assert_eq!(grabbed, 3);
}

#[test]
fn move_object_picks_up_and_drags() {
    let mut obj = cable(5, false);
    let mut connected = 7;
    let step = move_object(&mut obj, 5, &mut connected, true, true);
    assert_eq!(step, MoveStep { take_offset: true, drag: true });
    assert!(obj.object_grabbed);
    assert_eq!(connected, 7);
}

#[test]
fn move_object_unplugs_dragged_cable() {
    let mut obj = cable(5, true);
    let mut connected = 5;
    let step = move_object(&mut obj, 5, &mut connected, false, true);
    assert_eq!(step, MoveStep { take_offset: false, drag: true });
    assert_eq!(connected, NO_OBJECT);
}

#[test]
fn move_object_drops_on_release() {
    let mut obj = cable(5, true);
    let mut connected = 5;
    let step = move_object(&mut obj, 5, &mut connected, true, false);
    assert_eq!(step, MoveStep { take_offset: false, drag: false });
    assert!(!obj.object_grabbed);
    assert_eq!(connected, 5);
}

#[test]
fn move_object_ignores_other_cables() {
    let mut obj = cable(3, false);
    let mut connected = 3;
    let step = move_object(&mut obj, 5, &mut connected, true, true);
    assert_eq!(step, MoveStep { take_offset: false, drag: false });
    assert_eq!(obj, cable(3, false));
    assert_eq!(connected, 3);
}

#[test]
fn move_objects_without_sockets_moves_nothing() {
    let mut dests: Vec<static_rect_data_destination> = Vec::new();
    let mut objects = vec![cable(1, false)];
    let steps = move_objects(&mut dests, &mut objects, 1, &vec![true], true);
    assert_eq!(steps, vec![MoveStep { take_offset: false, drag: false }]);
    assert_eq!(objects, vec![cable(1, false)]);
}

#[test]
fn move_objects_unplugs_every_socket_holding_the_dragged_cable() {
    let mut dests = vec![socket(0, 1), socket(1, 1), socket(2, 2)];
    let mut objects = vec![cable(1, false), cable(2, false)];
    let steps = move_objects(&mut dests, &mut objects, 1, &vec![true, true], true);
    assert_eq!(
        steps,
        vec![
            MoveStep { take_offset: true, drag: true },
            MoveStep { take_offset: false, drag: false }
        ]
    );
    assert_eq!(objects, vec![cable(1, true), cable(2, false)]);
    assert_eq!(dests, vec![socket(0, NO_OBJECT), socket(1, NO_OBJECT), socket(2, 2)]);
}

#[test]
fn plug_into_empty_socket_when_dropped_over_it() {
    let mut connected = NO_OBJECT;
    assert!(grab_overlaps_connect(CursorIcon::Grab, true, NO_OBJECT, &mut connected, 4));
    assert_eq!(connected, 4);
}

#[test]
fn plug_refused_in_every_other_case() {
    let mut connected = NO_OBJECT;
    assert!(!grab_overlaps_connect(CursorIcon::Grab, false, NO_OBJECT, &mut connected, 4));
    assert!(!grab_overlaps_connect(CursorIcon::Grabbing, true, NO_OBJECT, &mut connected, 4));
    assert!(!grab_overlaps_connect(CursorIcon::Grab, true, 2, &mut connected, 4));
    assert_eq!(connected, NO_OBJECT);
    let mut full = 3;
    assert!(!grab_overlaps_connect(CursorIcon::Grab, true, NO_OBJECT, &mut full, 4));
    assert_eq!(full, 3);
}

#[test]
fn score_counts_right_and_wrong_sockets() {
    let dests = vec![socket(0, 0), socket(1, 2), socket(2, 1), socket(3, 3)];
    assert!(all_connected(&dests));
    assert_eq!(round_score(&dests), 0);
    assert_eq!(connection_marks(&dests), vec![true, false, false, true]);
    let all_right: Vec<_> = (0..8).map(|i| socket(i, i)).collect();
    assert_eq!(round_score(&all_right), 8);
    let all_wrong: Vec<_> = (0..8).map(|i| socket(i, (i + 1) % 8)).collect();
    assert_eq!(round_score(&all_wrong), -8);
}

#[test]
fn empty_socket_is_not_connected() {
    let dests = vec![socket(0, 0), socket(1, NO_OBJECT)];
    assert!(!all_connected(&dests));
}
