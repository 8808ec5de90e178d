use porcelain::term::fmt::FmtString;
use porcelain::term::render::{plain_text, Color};

fn parts(f: &FmtString) -> Vec<(String, Option<Color>, bool)> {
    f.spans().iter().map(|s| (s.text.clone(), s.style.color, s.style.bold)).collect()
}

#[test]
fn plain_text_is_one_piece() {
    let f = FmtString::new("a\nb".to_string());
    assert_eq!(parts(&f), vec![("a\nb".to_string(), None, false)]);
    let f = FmtString::new("a".to_string()).with_bold();
    assert_eq!(parts(&f), vec![("a".to_string(), None, true)]);
}

#[test]
fn coloured_text_is_coloured_by_line() {
    let f = FmtString::new("Date: x\nAuthor: y".to_string()).with_color(Color::Blue).with_bold();
    assert_eq!(
        parts(&f),
        vec![
            ("Date: x".to_string(), Some(Color::Blue), true),
            ("\n".to_string(), None, false),
            ("Author: y".to_string(), Some(Color::Blue), true),
        ]
    );
    assert_eq!(plain_text(&f.spans()), "Date: x\nAuthor: y");
    let f = FmtString::new("one line".to_string()).with_color(Color::Red);
    assert_eq!(parts(&f), vec![("one line".to_string(), Some(Color::Red), false)]);
    let f = FmtString::new("a\r\n\nb\n".to_string()).with_color(Color::Red);
    assert_eq!(plain_text(&f.spans()), "a\n\nb");
}
