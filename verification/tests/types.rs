use hitavada_crossword::types::Rect;

#[test]
fn test_rect_creation() {
    let rect = Rect {
        x1: 0,
        y1: 100,
        x2: 200,
        y2: 300,
    };
    assert_eq!(rect.x1, 0);
    assert_eq!(rect.y1, 100);
    assert_eq!(rect.x2, 200);
    assert_eq!(rect.y2, 300);
}

#[test]
fn test_rect_equality() {
    let rect1 = Rect {
        x1: 0,
        y1: 100,
        x2: 200,
        y2: 300,
    };
    let rect2 = Rect {
        x1: 0,
        y1: 100,
        x2: 200,
        y2: 300,
    };
    let rect3 = Rect {
        x1: 1,
        y1: 100,
        x2: 200,
        y2: 300,
    };
    assert_eq!(rect1, rect2);
    assert_ne!(rect1, rect3);
}
