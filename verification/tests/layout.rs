use agency::tui::layout::{centered_rect, inner, Rect};

#[test]
fn centered_rect_calculation() {
    let parent = Rect::new(0, 0, 100, 50);
    let result = centered_rect(parent, 50, 10);
    assert_eq!(result.width, 50);
    assert_eq!(result.height, 10);
    assert_eq!(result.x, 25);
    assert_eq!(result.y, 20);
}

#[test]
fn inner_subtracts_borders() {
    let area = Rect::new(10, 10, 20, 10);
    let result = inner(area);
    assert_eq!(result.x, 11);
    assert_eq!(result.y, 11);
    assert_eq!(result.width, 18);
    assert_eq!(result.height, 8);
}

#[test]
fn centering_rounds_down_and_handles_tall_overlays() {
    let r = centered_rect(Rect::new(3, 4, 81, 9), 33, 20);
    assert_eq!(r, Rect::new(3 + (81 - 26) / 2, 4, 26, 20));
    assert_eq!(inner(Rect::new(0, 0, 1, 0)), Rect::new(1, 1, 0, 0));
}
