use ecopower::layout::{centered_rect, Area};
use ecopower::text::{contains_chars, parse_i32, push_decimal, push_signed_decimal, split_whitespace};
use ratatui::layout::{Constraint, Direction, Layout, Rect};

fn chars(s: &str) -> Vec<char> {
    s.chars().collect()
}

#[test]
fn parse_i32_follows_std() {
    for s in ["0", "42", "-17", "+8", "007", "-2147483648", "2147483647", "", "-", "+", "12a", "2147483648", "-2147483649", " 1", "--1", "99999999999999999999"] {
        assert_eq!(parse_i32(&chars(s)), s.parse::<i32>().ok(), "input {:?}", s);
    }
}

#[test]
fn decimal_text() {
    let mut s = String::new();
    push_decimal(&mut s, 0);
    s.push(' ');
    push_decimal(&mut s, 1234567890123);
    s.push(' ');
    push_signed_decimal(&mut s, -2147483648);
    s.push(' ');
    push_signed_decimal(&mut s, 7);
    assert_eq!(s, "0 1234567890123 -2147483648 7");
}

#[test]
fn words_split_on_unicode_space() {
    let w = split_whitespace(&chars(" a\u{3000}bc\t\n d "));
    let w: Vec<String> = w.iter().map(|v| v.iter().collect()).collect();
    assert_eq!(w, vec!["a", "bc", "d"]);
    assert!(split_whitespace(&chars("   ")).is_empty());
}

#[test]
fn substring_search() {
    assert!(contains_chars(&chars("firefox"), &chars("fox")));
    assert!(contains_chars(&chars("firefox"), &chars("")));
    assert!(!contains_chars(&chars("fox"), &chars("firefox")));
    assert!(!contains_chars(&chars("firefox"), &chars("foy")));
}

#[test]
fn centered_rect_matches_ratatui_layout() {
    let r = Area { x: 2, y: 1, width: 100, height: 50 };
    let c = centered_rect(70, 45, r);
    let rect = Rect::new(2, 1, 100, 50);
    let rows = Layout::default()
        .direction(Direction::Vertical)
        .constraints([Constraint::Percentage(27), Constraint::Percentage(45), Constraint::Percentage(27)])
        .split(rect);
    let col = Layout::default()
        .direction(Direction::Horizontal)
        .constraints([Constraint::Percentage(15), Constraint::Percentage(70), Constraint::Percentage(15)])
        .split(rows[1])[1];
    assert_eq!((c.x, c.y, c.width, c.height), (col.x, col.y, col.width, col.height));
    assert_ne!(c, r);
    assert!(c.width < r.width && c.height < r.height);
    assert!(c.x > r.x && c.y > r.y);
    assert!(c.x + c.width <= r.x + r.width && c.y + c.height <= r.y + r.height);
}

#[test]
fn decimal_text_reads_back() {
    for n in [0i32, 5, -5, 19, -20, 123456, i32::MIN, i32::MAX] {
        let mut s = String::new();
        push_signed_decimal(&mut s, n);
        assert_eq!(s, n.to_string());
        assert_eq!(parse_i32(&chars(&s)), Some(n));
    }
}

fn cut(start: u16, size: u16, percent: u32) -> u32 {
    let len = (start as u32 + size as u32).min(u16::MAX as u32) - start as u32;
    start as u32 + (len * percent + 50) / 100
}

#[test]
fn centered_rect_rounds_each_edge_to_the_nearest_cell() {
    let areas = [
        Area { x: 0, y: 0, width: 80, height: 24 },
        Area { x: 3, y: 7, width: 101, height: 37 },
        Area { x: 0, y: 0, width: 1, height: 1 },
        Area { x: 10, y: 5, width: 0, height: 0 },
        Area { x: 65000, y: 65500, width: 1000, height: 200 },
        Area { x: 17, y: 2, width: 333, height: 99 },
    ];
    for r in areas {
        for (px, py) in [(70u16, 45u16), (100, 100), (0, 0), (33, 67), (99, 1), (50, 50)] {
            let c = centered_rect(px, py, r);
            let qx = ((100 - px) / 2) as u32;
            let qy = ((100 - py) / 2) as u32;
            let x0 = cut(r.x, r.width, qx);
            let x1 = cut(r.x, r.width, qx + px as u32);
            let y0 = cut(r.y, r.height, qy);
            let y1 = cut(r.y, r.height, qy + py as u32);
            assert_eq!(
                (c.x as u32, c.y as u32, c.width as u32, c.height as u32),
                (x0, y0, x1 - x0, y1 - y0),
                "area {:?} percentages {} {}",
                r,
                px,
                py
            );
        }
    }
}

#[test]
fn full_popup_is_the_area() {
    let r = Area { x: 4, y: 9, width: 120, height: 40 };
    assert_eq!(centered_rect(100, 100, r), r);
}
