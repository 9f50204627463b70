use spin::{view_point, Button, Event, Painter, PolarGrid, Rgb};

fn painter() -> Painter {
    Painter::new(PolarGrid::new(16, 72), Rgb::black(), Rgb::white(), Rgb::new(255, 0, 0))
}

fn moved(x: i32, y: i32, angle: i64) -> Event {
    Event::PointerMoved { x, y, angle }
}

#[test]
fn new_painter_is_background() {
    let p = painter();
    assert_eq!(p.cells.len(), 16 * 72);
    assert!(p.cells.iter().all(|c| *c == Rgb::black()));
}

#[test]
fn view_point_keeps_disc_round() {
    assert_eq!(view_point(500, 300, 800, 600), (200, 0, 600));
    assert_eq!(view_point(0, 0, 800, 600), (-800, 600, 600));
    assert_eq!(view_point(300, 100, 600, 800), (0, 600, 600));
}

#[test]
fn press_paints_cell_under_pointer() {
    let mut p = painter();
    assert!(p.handle(moved(500, 300, 0), 800, 600));
    assert!(p.cells.iter().all(|c| *c == Rgb::black()));
    assert!(p.handle(Event::ButtonPressed(Button::Primary), 800, 600));
    // 200 / 600 of the radius is ring 5; angle 0 is sector 0
    for (i, c) in p.cells.iter().enumerate() {
        if i == 5 * 72 {
            assert_eq!(*c, Rgb::white());
        } else {
            assert_eq!(*c, Rgb::black());
        }
    }
}

#[test]
fn painting_twice_equals_once() {
    let mut p = painter();
    p.handle(moved(450, 250, 125_000), 800, 600);
    p.handle(Event::ButtonPressed(Button::Secondary), 800, 600);
    let once = p.cells.clone();
    p.paint(800, 600);
    assert_eq!(p.cells, once);
    p.handle(moved(450, 250, 125_000), 800, 600);
    assert_eq!(p.cells, once);
    assert_eq!(once.iter().filter(|c| **c == Rgb::new(255, 0, 0)).count(), 1);
}

#[test]
fn primary_wins_when_both_held() {
    let mut p = painter();
    p.handle(moved(400, 250, 250_000), 800, 600);
    p.handle(Event::ButtonPressed(Button::Secondary), 800, 600);
    p.handle(Event::ButtonPressed(Button::Primary), 800, 600);
    assert!(p.painting_primary && p.painting_secondary);
    // (0, 100) of 600: ring 2; a quarter turn is sector 18
    assert_eq!(p.cells[2 * 72 + 18], Rgb::white());
    p.handle(Event::ButtonReleased(Button::Primary), 800, 600);
    p.handle(moved(400, 200, 250_000), 800, 600);
    assert_eq!(p.cells[5 * 72 + 18], Rgb::new(255, 0, 0));
}

#[test]
fn move_without_button_paints_nothing() {
    let mut p = painter();
    p.handle(Event::ButtonPressed(Button::Primary), 800, 600);
    p.handle(Event::ButtonReleased(Button::Primary), 800, 600);
    let before = p.cells.clone();
    p.handle(moved(420, 310, 990_000), 800, 600);
    assert_eq!(p.cells, before);
    assert_eq!(p.pointer_x, 420);
    assert_eq!(p.pointer_y, 310);
}

#[test]
fn pointer_off_disc_is_ignored() {
    let mut p = painter();
    p.handle(Event::ButtonPressed(Button::Primary), 800, 600);
    p.handle(moved(10, 10, 375_000), 800, 600);
    p.handle(moved(799, 300, 0), 800, 600);
    assert!(p.cells.iter().all(|c| *c == Rgb::black()));
}

#[test]
fn clear_resets_every_colour() {
    let mut p = painter();
    p.handle(moved(500, 300, 0), 800, 600);
    p.handle(Event::ButtonPressed(Button::Primary), 800, 600);
    p.handle(Event::ButtonReleased(Button::Primary), 800, 600);
    p.handle(moved(400, 200, 250_000), 800, 600);
    p.handle(Event::ButtonPressed(Button::Secondary), 800, 600);
    assert!(p.cells.iter().any(|c| *c == Rgb::white()));
    assert!(p.cells.iter().any(|c| *c == Rgb::new(255, 0, 0)));
    assert!(p.handle(Event::ClearPressed, 800, 600));
    assert!(p.cells.iter().all(|c| *c == Rgb::black()));
    assert!(p.painting_secondary);
}

#[test]
fn close_stops_and_other_events_do_nothing() {
    let mut p = painter();
    assert!(p.handle(Event::Ignored, 800, 600));
    assert!(!p.handle(Event::Closed, 800, 600));
    assert!(p.cells.iter().all(|c| *c == Rgb::black()));
}

#[test]
fn colour_channels_in_order() {
    assert_eq!(Rgb::new(1, 2, 3).to_array(), [1, 2, 3]);
}
