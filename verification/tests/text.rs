use kessler::text::{is_whitespace, wrap_text};

/// The wrapping as the game did it with `str::lines` and
/// `str::split_whitespace`, for comparison.
fn reference_wrap(text: &str, fits: impl Fn(&str) -> bool) -> Vec<String> {
    let mut lines = Vec::new();
    for source_line in text.lines() {
        let mut line = String::new();
        for word in source_line.split_whitespace() {
            if line.is_empty() {
                line += word;
                continue;
            }
            if !fits(&(line.clone() + " " + word)) {
                lines.push(line);
                line = word.to_string();
            } else {
                line += " ";
                line += word;
            }
        }
        if !line.is_empty() {
            lines.push(line);
        }
    }
    lines
}

fn width_at_most(limit: usize) -> impl Fn(&str) -> bool {
    move |s: &str| s.chars().count() <= limit
}

#[test]
fn whitespace_matches_std() {
    for code in 0..=0x10FFFFu32 {
        if let Some(c) = char::from_u32(code) {
            assert_eq!(is_whitespace(c), c.is_whitespace(), "{:?}", c);
        }
    }
}

#[test]
fn wrap_text_greedy() {
    assert_eq!(
        wrap_text("hello world foo", width_at_most(11)),
        vec!["hello world".to_string(), "foo".to_string()]
    );
    assert_eq!(
        wrap_text("  hello   world  ", width_at_most(11)),
        vec!["hello world".to_string()]
    );
    assert_eq!(
        wrap_text("a bb ccc dddd", width_at_most(4)),
        vec!["a bb".to_string(), "ccc".to_string(), "dddd".to_string()]
    );
}

#[test]
fn wrap_text_keeps_line_breaks() {
    assert_eq!(
        wrap_text("a b\n\nc d", |_: &str| true),
        vec!["a b".to_string(), "c d".to_string()]
    );
    assert_eq!(
        wrap_text("one\r\ntwo\n", |_: &str| true),
        vec!["one".to_string(), "two".to_string()]
    );
}

#[test]
fn wrap_text_nothing_fits() {
    assert_eq!(
        wrap_text("alpha beta\u{3000}gamma", |_: &str| false),
        vec!["alpha".to_string(), "beta".to_string(), "gamma".to_string()]
    );
}

#[test]
fn wrap_text_empty() {
    assert!(wrap_text("", |_: &str| true).is_empty());
    assert!(wrap_text(" \n\t\n", |_: &str| true).is_empty());
}

#[test]
fn wrap_text_matches_line_by_line_wrapping() {
    let texts = [
        "Launch satellites into orbit to gather science.\nWatch out for debris!",
        "Deorbit\tdead satellites before they\u{2003}collide.\r\n\r\nCollisions make more debris",
        "Ünïcödé wörds wörk tøø, even with\u{85}odd spaces",
        "x\ny z\n\n\n  w",
    ];
    for text in texts {
        for limit in [1, 5, 10, 20, 100] {
            assert_eq!(
                wrap_text(text, width_at_most(limit)),
                reference_wrap(text, width_at_most(limit)),
                "{:?} at {}",
                text,
                limit
            );
        }
    }
}

#[test]
fn wrap_text_only_breaks_between_words() {
    let text = "The orbit fills up with debris when satellites collide and break apart";
    let words: Vec<&str> = text.split_whitespace().collect();
    for limit in [1, 8, 16, 30, 200] {
        let lines = wrap_text(text, width_at_most(limit));
        assert_eq!(lines.join(" "), words.join(" "));
        assert!(lines.iter().all(|line| !line.is_empty()));
    }
}

#[test]
fn wrap_text_everything_fits() {
    assert_eq!(
        wrap_text("a b c\nd e", |_: &str| true),
        vec!["a b c".to_string(), "d e".to_string()]
    );
}
