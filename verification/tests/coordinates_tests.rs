use cdda_map_editor::coordinates::{parse_i32, Coordinates};
use cdda_map_editor::coordinates::CoordinatesVisitor;

#[test]
fn coordinates_parse_reads_x_and_y() {
    let c = Coordinates::parse("10;-3").unwrap();
    assert_eq!((c.x, c.y), (10, -3));
    let c = Coordinates::parse("1;2;3").unwrap();
    assert_eq!((c.x, c.y), (1, 2));
    assert!(Coordinates::parse("10").is_none());
    assert!(Coordinates::parse("a;1").is_none());
    assert!(Coordinates::parse(";1").is_none());
}

#[test]
fn coordinates_text_is_x_semicolon_y() {
    assert_eq!(Coordinates::new(10, 10).to_text(), "10;10");
    assert_eq!(Coordinates::new(-5, 0).to_text(), "-5;0");
    assert_eq!(
        Coordinates::new(i32::MIN, i32::MAX).to_text(),
        format!("{};{}", i32::MIN, i32::MAX)
    );
}

#[test]
fn coordinates_text_reads_back() {
    for (x, y) in [(0, 0), (12, -40), (i32::MIN, i32::MAX), (-1, 1), (100000, 7)] {
        let c = Coordinates::new(x, y);
        let back = Coordinates::parse(&c.to_text()).unwrap();
        assert_eq!(back, c);
    }
}

#[test]
fn parse_i32_reads_like_str_parse() {
    for s in ["0", "-0", "+5", "-2147483648", "2147483647", "2147483648", "", "-", "1a"] {
        assert_eq!(parse_i32(s), s.parse::<i32>().ok());
    }
}

#[test]
fn visitor_reads_coordinates_like_parse() {
    let c = CoordinatesVisitor.visit_str("10;10").unwrap();
    assert_eq!(c, Coordinates::new(10, 10));
    assert!(CoordinatesVisitor.visit_str("10").is_none());
}
