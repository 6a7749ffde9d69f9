use htmlview::browser::{Action, Browser, Key, Mode};
use htmlview::document::{build_document, normalize_html, ConversionError, Document};
use htmlview::prefix::resolve;
use htmlview::scroll::ScrollState;

const FIXTURE: &str = "<html><head><title>Example</title></head><body>\n\nHello\n</body></html>";

#[test]
fn resolve_empty_is_one() {
    assert_eq!(resolve(&vec![]), 1);
}

#[test]
fn resolve_folds_decimal() {
    assert_eq!(resolve(&vec![1, 2, 3]), 123);
    assert_eq!(resolve(&vec![4, 0]), 40);
    assert_eq!(resolve(&vec![7]), 7);
}

#[test]
fn resolve_zero_is_one() {
    assert_eq!(resolve(&vec![0]), 1);
    assert_eq!(resolve(&vec![0, 0]), 1);
    assert_eq!(resolve(&vec![0, 0, 0, 0, 0]), 1);
}

#[test]
fn resolve_saturates_at_max() {
    assert_eq!(resolve(&vec![9; 30]), usize::MAX);
}

#[test]
fn j_presses_accumulate() {
    let mut b = Browser::new();
    for _ in 0..3 {
        assert_eq!(b.on_key(Key::Char('j')), Action::Continue);
    }
    assert_eq!(b.scroll.vertical, 3);
}

#[test]
fn digit_prefix_multiplies_motion() {
    let mut b = Browser::new();
    assert_eq!(b.on_key(Key::Char('2')), Action::Continue);
    assert_eq!(b.on_key(Key::Char('5')), Action::Continue);
    assert_eq!(b.on_key(Key::Char('j')), Action::Continue);
    assert_eq!(b.scroll.vertical, 25);
    // the buffer was consumed: the next press moves by one
    b.on_key(Key::Char('j'));
    assert_eq!(b.scroll.vertical, 26);
}

#[test]
fn zero_prefix_means_once() {
    let mut b = Browser::new();
    b.on_key(Key::Char('0'));
    b.on_key(Key::Char('j'));
    assert_eq!(b.scroll.vertical, 1);
}

#[test]
fn k_floors_at_zero() {
    let mut b = Browser::new();
    b.on_key(Key::Char('k'));
    assert_eq!(b.scroll.vertical, 0);
    b.on_key(Key::Char('j'));
    b.on_key(Key::Char('9'));
    b.on_key(Key::Char('k'));
    assert_eq!(b.scroll.vertical, 0);
}

#[test]
fn horizontal_motions_saturate() {
    let mut b = Browser::new();
    b.on_key(Key::Char('h'));
    assert_eq!(b.scroll.horizontal, 0);
    b.on_key(Key::Char('l'));
    b.on_key(Key::Char('l'));
    assert_eq!(b.scroll.horizontal, 2);
    b.on_key(Key::Char('5'));
    b.on_key(Key::Char('h'));
    assert_eq!(b.scroll.horizontal, 0);
}

#[test]
fn scroll_never_overflows_near_max() {
    let mut s = ScrollState::new();
    s.scroll_down(usize::MAX);
    s.scroll_down(5);
    assert_eq!(s.vertical, usize::MAX);
    s.scroll_up(3);
    assert_eq!(s.vertical, usize::MAX - 3);
    s.scroll_up(usize::MAX);
    assert_eq!(s.vertical, 0);
    s.scroll_right(usize::MAX);
    s.scroll_right(1);
    assert_eq!(s.horizontal, usize::MAX);
}

#[test]
fn g_jumps_to_top_and_keeps_buffer() {
    let mut b = Browser::new();
    b.on_key(Key::Char('7'));
    b.on_key(Key::Char('j'));
    assert_eq!(b.scroll.vertical, 7);
    b.on_key(Key::Char('4'));
    b.on_key(Key::Char('g'));
    assert_eq!(b.scroll.vertical, 0);
    // `g` ignored the pending digit, so it still applies to the next motion
    b.on_key(Key::Char('j'));
    assert_eq!(b.scroll.vertical, 4);
}

#[test]
fn cap_g_without_document_is_noop() {
    let mut b = Browser::new();
    b.on_key(Key::Char('j'));
    b.on_key(Key::Char('G'));
    assert_eq!(b.scroll.vertical, 1);
}

#[test]
fn cap_g_jumps_to_line_count() {
    let mut b = Browser::new();
    let doc = Document {
        lines: vec!["one".to_string(), "two".to_string(), "three".to_string()],
        title: "T".to_string(),
    };
    b.install_document(doc);
    b.on_key(Key::Char('G'));
    assert_eq!(b.scroll.vertical, 3);
}

#[test]
fn quit_keys_request_quit() {
    let mut b = Browser::new();
    assert_eq!(b.on_key(Key::Char('q')), Action::Quit);
    let mut b2 = Browser::new();
    assert_eq!(b2.on_key(Key::Esc), Action::Quit);
}

#[test]
fn url_entry_mode_owns_input() {
    let mut b = Browser::new();
    assert_eq!(b.on_key(Key::Char('s')), Action::OpenUrlEntry);
    assert_eq!(b.mode, Mode::EditingUrl);
    // while editing, ordinary keys go to the text field, not the motions
    assert_eq!(b.on_key(Key::Char('j')), Action::EditInput);
    assert_eq!(b.scroll.vertical, 0);
    assert_eq!(b.on_key(Key::Char('q')), Action::EditInput);
    assert_eq!(b.mode, Mode::EditingUrl);
    // Enter confirms and asks for the fetch
    assert_eq!(b.on_key(Key::Enter), Action::SubmitUrl);
    assert_eq!(b.mode, Mode::Browsing);
}

#[test]
fn url_entry_escape_cancels() {
    let mut b = Browser::new();
    b.on_key(Key::Char('s'));
    assert_eq!(b.on_key(Key::Esc), Action::Continue);
    assert_eq!(b.mode, Mode::Browsing);
    // no fetch was requested, so there is still no document
    assert!(b.document.is_none());
}

#[test]
fn frame_bounds_and_indicator_clamp() {
    let mut b = Browser::new();
    let doc = Document {
        lines: vec!["a".to_string(), "b".to_string(), "c".to_string(), "d".to_string()],
        title: "T".to_string(),
    };
    b.install_document(doc);
    b.on_frame(17);
    assert_eq!(b.scroll.vertical_content_length, 4);
    assert_eq!(b.scroll.horizontal_content_length, 17);
    b.on_key(Key::Char('9'));
    b.on_key(Key::Char('j'));
    assert_eq!(b.scroll.vertical, 9);
    assert_eq!(b.scroll.vertical_indicator(), 4);
    assert_eq!(b.scroll.horizontal_indicator(), 0);
}

#[test]
fn normalization_strips_blank_lines() {
    assert_eq!(
        normalize_html(FIXTURE),
        "<html><head><title>Example</title></head><body>\nHello\n</body></html>\n"
    );
}

#[test]
fn normalization_trims_each_line() {
    assert_eq!(normalize_html("  a  \n\t\n\n  b\r\n"), "a\nb\n");
    assert_eq!(normalize_html(""), "");
    assert_eq!(normalize_html(" \n \t \n "), "");
}

#[test]
fn title_extracted_from_fixture() {
    let doc = build_document(FIXTURE, 80).unwrap();
    assert_eq!(doc.title, "Example");
}

#[test]
fn title_missing_falls_back() {
    let doc = build_document("<html><body>\nHi\n</body></html>", 80).unwrap();
    assert_eq!(doc.title, "Unknown Title");
}

#[test]
fn title_malformed_falls_back() {
    let doc = build_document("<html><head>\n<title>Oops\n</head><body>Hi</body></html>", 80).unwrap();
    assert_eq!(doc.title, "Unknown Title");
}

#[test]
fn conversion_really_converts() {
    let doc = build_document(FIXTURE, 80).unwrap();
    assert!(doc.lines.iter().any(|l| l.contains("Hello")));
    assert!(doc.lines.iter().all(|l| !l.contains('<')));
}

#[test]
fn pipeline_is_deterministic() {
    let d1 = build_document(FIXTURE, 80).unwrap();
    let d2 = build_document(FIXTURE, 80).unwrap();
    assert_eq!(d1.lines, d2.lines);
    assert_eq!(d1.title, d2.title);
}

#[test]
fn unicode_whitespace_is_trimmed() {
    // U+00A0 and the other Unicode blanks trim away like ASCII spaces
    assert_eq!(normalize_html("\u{a0}a\u{a0}\n\u{a0}\u{2003}\nb"), "a\nb\n");
}

#[test]
fn conversion_declines_when_too_narrow() {
    // a viewport narrower than the reserved columns leaves no room to render
    match build_document(FIXTURE, 2) {
        Err(e) => assert_eq!(e, ConversionError),
        Ok(_) => panic!("expected the renderer to decline a zero-column wrap"),
    }
}

#[test]
fn narrower_viewport_wraps_more() {
    let body = "<html><body>one two three four five six seven eight nine ten \
                eleven twelve thirteen fourteen fifteen</body></html>";
    let narrow = build_document(body, 14).unwrap();
    let wide = build_document(body, 200).unwrap();
    assert!(narrow.lines.len() > wide.lines.len());
}
