use agent_of_empires::dialogs::{centered_rect, Rect};

#[test]
fn centered_rect_centres_and_clamps() {
    let area = Rect { x: 10, y: 5, width: 100, height: 40 };
    assert_eq!(centered_rect(area, 60, 20), Rect { x: 30, y: 15, width: 60, height: 20 });
    assert_eq!(centered_rect(area, 61, 21), Rect { x: 29, y: 14, width: 61, height: 21 });
    assert_eq!(centered_rect(area, 200, 50), Rect { x: 10, y: 5, width: 100, height: 40 });
}
