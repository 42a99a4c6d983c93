use nuls::{
    convert_position, find_line_breaks, line_break_index, ContentChange, DocumentStore, ErrorKind,
    Position, Range, TextDocument,
};

const SCRIPT: &str = "#! /usr/bin/env nu\ndef main [] {\n    ls | sort-by 'size' | first\n}";

fn pos(line: u32, character: u32) -> Position {
    Position { line, character }
}

fn doc(text: &str) -> TextDocument {
    TextDocument::new(String::from("file:///test.nu"), 1, text).expect("document fits")
}

#[test]
fn find_line_breaks_of_script() {
    assert_eq!(find_line_breaks(SCRIPT), vec![18, 32, 64]);
}

#[test]
fn find_line_breaks_counts_bytes() {
    // the euro sign takes three bytes
    assert_eq!(find_line_breaks("\u{20AC}\nx\n"), vec![3, 5]);
    assert_eq!(find_line_breaks(""), Vec::<usize>::new());
}

#[test]
fn convert_position_of_script() {
    assert_eq!(convert_position(SCRIPT, pos(2, 4)), 37);
    assert_eq!(convert_position(SCRIPT, pos(0, 0)), 0);
}

#[test]
fn convert_position_clamps() {
    // past the end of line 0: the end of that line
    assert_eq!(convert_position(SCRIPT, pos(0, 100)), 18);
    // past the last line: the end of the text
    assert_eq!(convert_position(SCRIPT, pos(9, 0)), SCRIPT.len());
}

#[test]
fn line_break_index_ranges() {
    let breaks = vec![18, 32, 64];
    for o in 0..18 {
        assert_eq!(line_break_index(&breaks, o), None);
    }
    for o in 19..32 {
        assert_eq!(line_break_index(&breaks, o), Some(0));
    }
    for o in 33..64 {
        assert_eq!(line_break_index(&breaks, o), Some(1));
    }
    for o in 64..100 {
        assert_eq!(line_break_index(&breaks, o), Some(2));
    }
    assert_eq!(line_break_index(&vec![], 5), None);
}

#[test]
fn position_at_and_offset_at_round_trip() {
    // two-byte, three-byte and four-byte characters (the last one a surrogate pair)
    let text = "a\u{e9}\u{20AC}\u{10437}b\r\nsecond \u{10437} line\n\nlast";
    let d = doc(text);
    let mut boundaries: Vec<u32> = text.char_indices().map(|(i, _)| i as u32).collect();
    boundaries.push(text.len() as u32);
    for o in boundaries {
        let p = d.position_at(o);
        assert_eq!(d.offset_at(p), o, "offset {o}");
        assert_eq!(d.position_at(d.offset_at(p)), p);
    }
}

#[test]
fn position_at_counts_utf16_units() {
    let d = doc("\u{10437} yee\nab");
    assert_eq!(d.position_at(4), pos(0, 2));
    assert_eq!(d.position_at(5), pos(0, 3));
    // inside the four-byte character: rounds down
    assert_eq!(d.position_at(2), pos(0, 0));
    // the line break itself ends line 0
    assert_eq!(d.position_at(8), pos(0, 6));
    assert_eq!(d.position_at(9), pos(1, 0));
    assert_eq!(d.position_at(100), pos(1, 2));
    assert_eq!(d.offset_at(pos(0, 3)), 5);
    // inside the surrogate pair: the start of the character
    assert_eq!(d.offset_at(pos(0, 1)), 0);
    assert_eq!(d.offset_at(pos(1, 1)), 10);
}

#[test]
fn offset_at_euro() {
    let d = doc("\u{20AC} euro");
    assert_eq!(d.offset_at(pos(0, 2)), 4);
}

#[test]
fn update_with_ranges_and_full_text() {
    let mut d = doc("hello\nworld");
    let change = ContentChange {
        range: Some(Range { start: pos(1, 0), end: pos(1, 5) }),
        text: String::from("there"),
    };
    assert!(d.update(&vec![change], 2).is_ok());
    assert_eq!(d.get_content(), "hello\nthere");
    assert_eq!(d.version(), 2);
    let changes = vec![
        ContentChange { range: Some(Range { start: pos(0, 5), end: pos(0, 5) }), text: String::from(",") },
        ContentChange { range: Some(Range { start: pos(0, 0), end: pos(0, 1) }), text: String::from("J") },
    ];
    assert!(d.update(&changes, 3).is_ok());
    assert_eq!(d.get_content(), "Jello,\nthere");
    let full = ContentChange { range: None, text: String::from("ls") };
    assert!(d.update(&vec![full], 4).is_ok());
    assert_eq!(d.get_content(), "ls");
    assert_eq!(d.version(), 4);
}

#[test]
fn update_with_inverted_range_fails_unchanged() {
    let mut d = doc("hello\nworld");
    let changes = vec![
        ContentChange { range: None, text: String::from("abc") },
        ContentChange { range: Some(Range { start: pos(0, 2), end: pos(0, 1) }), text: String::new() },
    ];
    let e = d.update(&changes, 7).unwrap_err();
    assert_eq!(e.kind, ErrorKind::InvalidParams);
    assert_eq!(d.get_content(), "hello\nworld");
    assert_eq!(d.version(), 1);
}

#[test]
fn store_open_change_close() {
    let mut store = DocumentStore::new();
    let a = String::from("file:///a.nu");
    let b = String::from("file:///b.nu");
    assert!(store.open(a.clone(), 1, "ls").is_ok());
    assert!(store.open(b.clone(), 1, "ps").is_ok());
    assert!(store.open(a.clone(), 2, "echo").is_ok());
    assert_eq!(store.uris(), vec![a.clone(), b.clone()]);
    assert_eq!(store.get_content(&a).unwrap(), "echo");
    assert_eq!(store.get(&a).unwrap().version(), 2);
    let change = ContentChange { range: None, text: String::from("ls\nps") };
    assert!(store.change(&b, 5, &vec![change]).is_ok());
    assert_eq!(store.get_content(&b).unwrap(), "ls\nps");
    assert_eq!(store.offset_at(&b, pos(1, 1)).unwrap(), 4);
    assert_eq!(store.position_at(&b, 4).unwrap(), pos(1, 1));
    store.close(&a);
    assert_eq!(store.uris(), vec![b.clone()]);
    assert_eq!(store.get_content(&a).unwrap_err().kind, ErrorKind::InvalidParams);
    let change = ContentChange { range: None, text: String::new() };
    assert_eq!(store.change(&a, 3, &vec![change]).unwrap_err().kind, ErrorKind::InvalidParams);
    assert_eq!(store.offset_at(&a, pos(0, 0)).unwrap_err().kind, ErrorKind::InvalidParams);
}
