use game_of_life::input::{Action, Button, Fullscreen, Held, Input, Key};
use game_of_life::cells::LiveCells;
use game_of_life::state::{Color, State};

const BLUE: Color = Color { r: 0, g: 0, b: 255, a: 255 };
const RED: Color = Color { r: 255, g: 0, b: 0, a: 255 };

const NONE: Held = Held { left: false, middle: false, right: false };
const LEFT: Held = Held { left: true, middle: false, right: false };
const MIDDLE: Held = Held { left: false, middle: true, right: false };
const RIGHT: Held = Held { left: false, middle: false, right: true };

fn start() -> State {
    State::new(BLUE, RED, true, 5, (400, 300), LiveCells::new())
}

fn live(state: &State) -> Vec<(i32, i32)> {
    let mut list = state.living_cells().cells();
    list.sort();
    list
}

fn drag(held: Held, x: i32, y: i32, dx: i32, dy: i32) -> Input {
    Input::PointerMove { held, x, y, dx, dy }
}

fn press(button: Button, x: i32, y: i32) -> Input {
    Input::PointerDown { button, x, y }
}

#[test]
fn quit_request_ends_the_program() {
    let mut state = start();
    assert_eq!(state.handle(Input::Quit), Action::Quit);
}

#[test]
fn escape_ends_the_program() {
    let mut state = start();
    assert_eq!(state.handle(Input::KeyDown { key: Key::Escape }), Action::Quit);
}

#[test]
fn space_toggles_pause() {
    let mut state = start();
    assert_eq!(state.handle(Input::KeyDown { key: Key::Space }), Action::Continue);
    assert!(!state.is_paused());
    assert_eq!(state.handle(Input::KeyDown { key: Key::Space }), Action::Continue);
    assert!(state.is_paused());
}

#[test]
fn c_resets() {
    let mut state = start();
    state.insert_cell(1, 2);
    state.insert_cell(300, 400);
    assert_eq!(state.handle(Input::KeyDown { key: Key::C }), Action::Continue);
    assert!(state.living_cells().is_empty());
}

#[test]
fn f_asks_for_the_full_screen() {
    let mut state = start();
    state.insert_cell(1, 2);
    assert_eq!(state.handle(Input::KeyDown { key: Key::F }), Action::ToggleFullscreen);
    assert_eq!(live(&state), vec![(-79, -59)]);
    assert!(state.is_paused());
}

#[test]
fn other_keys_do_nothing() {
    let mut state = start();
    state.insert_cell(400, 300);
    assert_eq!(state.handle(Input::KeyDown { key: Key::Other }), Action::Continue);
    assert_eq!(live(&state), vec![(0, 0)]);
    assert!(state.is_paused());
    assert_eq!(state.scale(), 5);
    assert_eq!(state.translate(), (400, 300));
}

#[test]
fn left_button_inserts() {
    let mut state = start();
    assert_eq!(state.handle(press(Button::Left, 405, 300)), Action::Continue);
    assert_eq!(live(&state), vec![(1, 0)]);
    assert_eq!(state.handle(drag(LEFT, 410, 300, 5, 0)), Action::Continue);
    assert_eq!(live(&state), vec![(1, 0), (2, 0)]);
}

#[test]
fn right_button_removes() {
    let mut state = start();
    state.insert_cell(405, 300);
    state.insert_cell(410, 300);
    assert_eq!(state.handle(press(Button::Right, 405, 300)), Action::Continue);
    assert_eq!(live(&state), vec![(2, 0)]);
    assert_eq!(state.handle(drag(RIGHT, 410, 300, 5, 0)), Action::Continue);
    assert!(state.living_cells().is_empty());
}

#[test]
fn middle_button_pans_when_dragged() {
    let mut state = start();
    assert_eq!(state.handle(drag(MIDDLE, 10, 10, -7, 9)), Action::Continue);
    assert_eq!(state.translate(), (393, 309));
    assert!(state.living_cells().is_empty());
}

#[test]
fn middle_and_other_buttons_do_nothing_when_pressed() {
    let mut state = start();
    assert_eq!(state.handle(press(Button::Middle, 405, 300)), Action::Continue);
    assert_eq!(state.handle(press(Button::Other, 405, 300)), Action::Continue);
    assert!(state.living_cells().is_empty());
    assert_eq!(state.translate(), (400, 300));
}

#[test]
fn left_goes_before_right_and_right_before_middle() {
    let mut state = start();
    let all = Held { left: true, middle: true, right: true };
    state.handle(drag(all, 400, 300, 50, 50));
    assert_eq!(live(&state), vec![(0, 0)]);
    assert_eq!(state.translate(), (400, 300));
    let right_and_middle = Held { left: false, middle: true, right: true };
    state.handle(drag(right_and_middle, 400, 300, 50, 50));
    assert!(state.living_cells().is_empty());
    assert_eq!(state.translate(), (400, 300));
}

#[test]
fn motion_with_no_button_does_nothing() {
    let mut state = start();
    assert_eq!(state.handle(drag(NONE, 400, 300, 50, 50)), Action::Continue);
    assert!(state.living_cells().is_empty());
    assert_eq!(state.translate(), (400, 300));
}

#[test]
fn wheel_zooms_by_one() {
    let mut state = start();
    assert_eq!(state.handle(Input::Scroll { y: 1 }), Action::Continue);
    assert_eq!(state.scale(), 6);
    state.handle(Input::Scroll { y: 3 });
    assert_eq!(state.scale(), 7);
    state.handle(Input::Scroll { y: -1 });
    assert_eq!(state.scale(), 6);
    state.handle(Input::Scroll { y: i32::MIN });
    assert_eq!(state.scale(), 5);
    state.handle(Input::Scroll { y: 0 });
    assert_eq!(state.scale(), 5);
}

#[test]
fn wheel_stops_at_the_ends_of_the_range() {
    let mut state = start();
    for _ in 0..20 {
        state.handle(Input::Scroll { y: 1 });
    }
    assert_eq!(state.scale(), 8);
    for _ in 0..20 {
        state.handle(Input::Scroll { y: -1 });
    }
    assert_eq!(state.scale(), 1);
}

#[test]
fn every_input_is_admitted_but_a_pan_past_the_canvas() {
    let state = start();
    assert!(state.admits(&Input::Quit));
    assert!(state.admits(&Input::KeyDown { key: Key::C }));
    assert!(state.admits(&press(Button::Left, i32::MAX, i32::MIN)));
    assert!(state.admits(&drag(LEFT, i32::MIN, i32::MAX, i32::MAX, i32::MAX)));
    assert!(state.admits(&drag(RIGHT, 0, 0, i32::MAX, i32::MAX)));
    assert!(state.admits(&drag(NONE, 0, 0, i32::MAX, i32::MAX)));
    assert!(state.admits(&Input::Scroll { y: i32::MAX }));
    assert!(state.admits(&drag(MIDDLE, 0, 0, i32::MAX - 400, i32::MIN + 300)));
    assert!(state.admits(&drag(MIDDLE, 0, 0, i32::MIN, i32::MIN + 300)));
    assert!(!state.admits(&drag(MIDDLE, 0, 0, i32::MAX - 399, 0)));
    assert!(!state.admits(&drag(MIDDLE, 0, 0, 0, i32::MAX - 299)));
    assert!(state.admits(&drag(MIDDLE, 0, 0, 0, i32::MIN)));
    let state = State::new(BLUE, RED, true, 5, (-1, -1), LiveCells::new());
    assert!(state.admits(&drag(MIDDLE, 0, 0, i32::MIN + 1, i32::MIN + 1)));
    assert!(!state.admits(&drag(MIDDLE, 0, 0, i32::MIN, 0)));
    assert!(!state.admits(&drag(MIDDLE, 0, 0, 0, i32::MIN)));
}

#[test]
fn full_screen_switches_to_the_desktop_and_back() {
    assert_eq!(Fullscreen::Off.toggle(), Fullscreen::Desktop);
    assert_eq!(Fullscreen::Desktop.toggle(), Fullscreen::Off);
    assert_eq!(Fullscreen::True.toggle(), Fullscreen::Off);
}
