use chaikin::curve::{refine, subdivide};
use chaikin::drawing::{Line, Point};
use chaikin::render::{clear_canvas, display, Color, DrawOp};
use chaikin::window::{
    decide, Button, Command, Input, Interface, Key, EXIT_MESSAGE, FRAME_DELAY_MS, STEPS,
};

fn click(x: i32, y: i32) -> Input {
    Input::MouseDown { button: Button::Left, x, y }
}

fn with_points(coords: &[(i32, i32)]) -> Interface {
    let mut interface = Interface::new();
    for &(x, y) in coords {
        interface.add_point(x, y);
    }
    interface
}

fn control(coords: &[(i32, i32)]) -> Vec<Point> {
    coords.iter().map(|&(x, y)| Point::new(x, y, true)).collect()
}

#[test]
fn configuration_has_its_values() {
    assert_eq!(STEPS, 7);
    assert_eq!(FRAME_DELAY_MS, 500);
    assert_eq!(EXIT_MESSAGE, "Exiting...");
}

#[test]
fn inputs_stand_for_their_commands() {
    assert_eq!(decide(&Input::Quit), Command::Exit);
    assert_eq!(decide(&Input::KeyDown(Key::Escape)), Command::Exit);
    assert_eq!(decide(&Input::KeyDown(Key::Return)), Command::Animate);
    assert_eq!(decide(&Input::KeyDown(Key::Space)), Command::Clear);
    assert_eq!(decide(&Input::KeyDown(Key::C)), Command::Clear);
    assert_eq!(decide(&Input::KeyDown(Key::Other)), Command::Ignore);
    assert_eq!(decide(&click(3, -4)), Command::AddPoint { x: 3, y: -4 });
    assert_eq!(
        decide(&Input::MouseDown { button: Button::Other, x: 3, y: 4 }),
        Command::Ignore
    );
    assert_eq!(decide(&Input::Other), Command::Ignore);
}

#[test]
fn interface_starts_empty() {
    let mut interface = Interface::new();
    assert!(interface.get_points().is_empty());
    assert!(interface.get_polyline().is_empty());
    assert_eq!(interface.steps_left(), 0);
    assert_eq!(interface.next_frame(), None);
}

#[test]
fn added_points_are_kept_in_click_order() {
    let mut interface = Interface::new();
    interface.add_point(5, 6);
    interface.add_point(1, 2);
    interface.add_point(5, 6);
    assert_eq!(*interface.get_points(), control(&[(5, 6), (1, 2), (5, 6)]));
    assert!(interface.get_points().iter().all(|p| p.is_ctrl_point()));
}

#[test]
fn adding_a_point_shows_the_points_again() {
    let mut interface = Interface::new();
    let first = interface.add_point(5, 6);
    assert_eq!(first, display(&control(&[(5, 6)]), None));
    let second = interface.add_point(1, 2);
    assert_eq!(second, display(&control(&[(5, 6), (1, 2)]), None));
    assert_eq!(second[0], DrawOp::SetColor(Color::Ink));
    assert_eq!(second[second.len() - 1], DrawOp::Present);
}

#[test]
fn clearing_the_canvas_keeps_the_points() {
    let interface = with_points(&[(1, 1), (2, 2)]);
    assert_eq!(interface.clear(), clear_canvas());
    assert_eq!(*interface.get_points(), control(&[(1, 1), (2, 2)]));
}

#[test]
fn clearing_the_points_forgets_them() {
    let mut interface = with_points(&[(1, 1), (2, 2), (9, 3)]);
    interface.clear_points();
    assert!(interface.get_points().is_empty());
    assert_eq!(interface.animate(), Vec::new());
    assert_eq!(interface.steps_left(), 0);
}

#[test]
fn animation_of_fewer_than_two_points_shows_nothing() {
    let mut none = Interface::new();
    assert_eq!(none.animate(), Vec::new());
    assert_eq!(none.steps_left(), 0);
    let mut one = with_points(&[(4, 4)]);
    assert_eq!(one.animate(), Vec::new());
    assert_eq!(one.steps_left(), 0);
    assert_eq!(one.next_frame(), None);
}

#[test]
fn two_points_are_shown_as_one_segment() {
    let mut interface = with_points(&[(10, 20), (30, 40)]);
    let ops = interface.animate();
    let points = control(&[(10, 20), (30, 40)]);
    assert_eq!(ops, display(&points, Some(&points)));
    let lines: Vec<&DrawOp> = ops
        .iter()
        .filter(|op| matches!(op, DrawOp::DrawLine(_)))
        .collect();
    assert_eq!(lines, vec![&DrawOp::DrawLine(Line::new(points[0], points[1]))]);
    assert_eq!(interface.steps_left(), 0);
    assert_eq!(interface.next_frame(), None);
}

#[test]
fn animation_shows_seven_frames() {
    let coords = [(0, 0), (100, 0), (100, 100)];
    let mut interface = with_points(&coords);
    assert_eq!(interface.animate(), Vec::new());
    assert_eq!(interface.steps_left(), 7);
    assert_eq!(*interface.get_polyline(), control(&coords));
    let mut curve = control(&coords);
    for left in (0..7).rev() {
        curve = subdivide(&curve);
        let mut expected = clear_canvas();
        expected.extend(display(&control(&coords), Some(&curve)));
        assert_eq!(interface.next_frame(), Some(expected));
        assert_eq!(interface.steps_left(), left);
        assert_eq!(*interface.get_polyline(), curve);
    }
    assert_eq!(interface.next_frame(), None);
    assert_eq!(*interface.get_polyline(), refine(&control(&coords), 7));
    assert_eq!(interface.get_polyline().len(), 384);
}

#[test]
fn animation_leaves_the_control_points_alone() {
    let coords = [(0, 0), (100, 0), (100, 100), (0, 100)];
    let mut interface = with_points(&coords);
    interface.animate();
    while interface.next_frame().is_some() {}
    assert_eq!(*interface.get_points(), control(&coords));
    assert!(interface.get_points().iter().all(|p| p.is_ctrl_point()));
}

#[test]
fn animation_starts_over_from_the_control_points() {
    let coords = [(0, 0), (100, 0), (100, 100)];
    let mut interface = with_points(&coords);
    interface.animate();
    let first = interface.next_frame();
    interface.next_frame();
    interface.animate();
    assert_eq!(interface.steps_left(), 7);
    assert_eq!(interface.next_frame(), first);
}

#[test]
fn four_points_survive_clearing_the_canvas() {
    let coords = [(10, 10), (200, 30), (220, 180), (40, 160)];
    let mut interface = Interface::new();
    let events = vec![
        click(10, 10),
        click(200, 30),
        click(220, 180),
        click(40, 160),
        Input::KeyDown(Key::Space),
        Input::KeyDown(Key::Return),
    ];
    let drawn = interface.running(&events).unwrap();
    assert_eq!(*interface.get_points(), control(&coords));
    assert_eq!(drawn[drawn.len() - 2..], clear_canvas()[..]);
    assert_eq!(interface.steps_left(), 7);
    let frame = interface.next_frame().unwrap();
    for p in control(&coords) {
        assert!(frame.contains(&DrawOp::DrawPoint(p)));
    }
    let mut expected = clear_canvas();
    expected.extend(display(&control(&coords), Some(&subdivide(&control(&coords)))));
    assert_eq!(frame, expected);
}

#[test]
fn running_draws_for_each_event_in_order() {
    let mut interface = Interface::new();
    let events = vec![
        click(1, 2),
        Input::Other,
        Input::KeyDown(Key::C),
        click(3, 4),
        Input::KeyDown(Key::Return),
    ];
    let mut expected = display(&control(&[(1, 2)]), None);
    expected.extend(clear_canvas());
    expected.extend(display(&control(&[(1, 2), (3, 4)]), None));
    let both = control(&[(1, 2), (3, 4)]);
    expected.extend(display(&both, Some(&both)));
    assert_eq!(interface.running(&events), Ok(expected));
}

#[test]
fn running_without_events_does_nothing() {
    let mut interface = with_points(&[(1, 2)]);
    assert_eq!(interface.running(&Vec::new()), Ok(Vec::new()));
    assert_eq!(*interface.get_points(), control(&[(1, 2)]));
}

#[test]
fn running_ends_at_the_first_exit() {
    let mut interface = Interface::new();
    let events = vec![click(1, 2), Input::KeyDown(Key::Escape), click(3, 4)];
    assert_eq!(interface.running(&events), Err("Exiting...".to_string()));
    assert_eq!(*interface.get_points(), control(&[(1, 2)]));
    let mut other = Interface::new();
    assert_eq!(other.running(&vec![Input::Quit]), Err("Exiting...".to_string()));
}

#[test]
fn handling_an_event_follows_its_command() {
    let mut interface = Interface::new();
    assert_eq!(
        interface.handle(&click(7, 8)),
        Ok(display(&control(&[(7, 8)]), None))
    );
    assert_eq!(interface.handle(&Input::KeyDown(Key::Space)), Ok(clear_canvas()));
    assert_eq!(interface.handle(&Input::KeyDown(Key::Other)), Ok(Vec::new()));
    assert_eq!(interface.handle(&Input::Quit), Err("Exiting...".to_string()));
    assert_eq!(*interface.get_points(), control(&[(7, 8)]));
}

#[test]
fn points_added_during_the_animation_show_in_its_frames() {
    let coords = [(0, 0), (100, 0), (100, 100)];
    let mut interface = with_points(&coords);
    interface.animate();
    interface.next_frame();
    interface.add_point(50, 50);
    let frame = interface.next_frame().unwrap();
    assert!(frame.contains(&DrawOp::DrawPoint(Point::new(50, 50, true))));
    assert_eq!(interface.get_polyline().len(), 12);
}
