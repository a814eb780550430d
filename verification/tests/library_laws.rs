//! Concrete checks of the laws on line counting, comma splitting, entry
//! appending and item order, and of inputs at the edges of the parsers.

use pydocstring::cursor::Cursor;
use pydocstring::google::parse_google;
use pydocstring::numpy::{parse_numpy, try_parse_numpy};
use pydocstring::styles::utils::split_comma_parts;
use pydocstring::{parse, GoogleDocstringItem, GoogleSectionBody, GoogleSectionKind, LineIndex, NumPyDocstringItem, NumPySectionBody, Style, TextRange, TextSize};

fn slice(src: &str, r: TextRange) -> &str {
    &src[r.start.0 as usize..r.end.0 as usize]
}

#[test]
fn google_all_kinds() {
    let kinds = GoogleSectionKind::all();
    assert_eq!(kinds.len(), 23);
    for (i, k) in kinds.iter().enumerate() {
        assert_ne!(*k, GoogleSectionKind::Unknown);
        assert_eq!(GoogleSectionKind::from_name(&k.display_name().to_lowercase()), *k);
        for other in &kinds[i + 1..] {
            assert_ne!(k, other);
        }
    }
    assert_eq!(kinds[0], GoogleSectionKind::Args);
    assert_eq!(kinds[22], GoogleSectionKind::Tip);
}

#[test]
fn numpy_parse_reads_unclosed_citation_as_text() {
    let src = "S.\n\nReferences\n----------\n.. [1\n   ] Text.\n";
    let doc = parse_numpy(src);
    let secs = doc.sections();
    assert_eq!(secs.len(), 1);
    let refs = secs[0].references();
    assert_eq!(refs.len(), 1);
    assert!(refs[0].number.is_none());
    assert!(refs[0].directive_marker.is_none());
    assert_eq!(slice(src, refs[0].content.unwrap()), ".. [1\n   ] Text.");
    assert!(try_parse_numpy(src).is_none());
    let auto = parse(src);
    assert_eq!(auto.value.style(), Style::NumPy);
    assert!(auto.diagnostics.is_empty());
}

#[test]
fn line_count_is_one_more_than_newlines() {
    for src in ["", "a", "a\n", "a\nb", "\n\n\n", "x\r\ny\n\nz"] {
        let idx = LineIndex::from_source(src);
        let newlines = src.bytes().filter(|b| *b == b'\n').count();
        assert_eq!(idx.line_count() as usize, 1 + newlines);
    }
    assert_eq!(LineIndex::from_source("").line_count(), 1);
    assert_eq!(LineIndex::from_source("a\n").line_count(), 2);
}

#[test]
fn line_col_stays_on_its_line() {
    let src = "ab\ncd\n\nxyzw\n";
    let idx = LineIndex::from_source(src);
    for off in 0..=src.len() as u32 {
        let (l, c) = idx.line_col(TextSize::new(off));
        assert!(l < idx.line_count());
        let start = idx.line_start(l).raw();
        assert_eq!(start + c, off);
        assert!(!src[start as usize..off as usize].contains('\n'));
    }
}

#[test]
fn comma_parts_tile_their_text() {
    let text = "Dict[str, int], optional";
    let b = text.as_bytes();
    let parts = split_comma_parts(b, 0, b.len());
    assert_eq!(parts, vec![(0, 14), (15, 24)]);
    for text in ["int", "a, (b, c), d", "", ",", "x<y, z>, w,"] {
        let b = text.as_bytes();
        let parts = split_comma_parts(b, 0, b.len());
        assert_eq!(parts[0].0, 0);
        assert_eq!(parts[parts.len() - 1].1, b.len());
        for w in parts.windows(2) {
            assert_eq!(b[w[0].1], b',');
            assert_eq!(w[1].0, w[0].1 + 1);
        }
        let joined: Vec<&str> = parts.iter().map(|(s, e)| &text[*s..*e]).collect();
        assert_eq!(joined.join(","), text);
    }
}

#[test]
fn entries_append_at_their_line_start() {
    let src = "S.\n\nArgs:\n    a: A.\n      b: more of a.\n    c (int): C.\n  dd: D.\n";
    let doc = parse_google(src);
    let args = match &doc.items[0] {
        GoogleDocstringItem::Section(s) => match &s.body {
            GoogleSectionBody::Args(v) => v.clone(),
            _ => panic!("Args body expected"),
        },
        _ => panic!("section expected"),
    };
    assert_eq!(args.len(), 3);
    assert_eq!(args[0].range.start.0 as usize, src.find("a: A.").unwrap());
    assert_eq!(args[1].range.start.0 as usize, src.find("c (int)").unwrap());
    assert_eq!(args[2].range.start.0 as usize, src.find("dd: D.").unwrap());
    assert_eq!(slice(src, args[0].description), "A.\n      b: more of a.");
}

#[test]
fn multiline_type_stops_at_next_section_header() {
    let src = "Summary.\n\nArgs:\n    x (Dict[str,\nReturns:\n    int: R.";
    let doc = parse_google(src);
    assert_eq!(doc.items.len(), 2);
    let args = match &doc.items[0] {
        GoogleDocstringItem::Section(s) => match &s.body {
            GoogleSectionBody::Args(v) => v.clone(),
            _ => panic!("Args body expected"),
        },
        _ => panic!("section expected"),
    };
    assert_eq!(args.len(), 1);
    assert_eq!(slice(src, args[0].name), "x (Dict[str,");
    assert!(args[0].ty.is_none());
    assert!(args[0].colon.is_none());
}

#[test]
fn multiline_type_lines_are_not_entries() {
    let src = "S.\n\nArgs:\n    x (Tuple[int,\n        str,\n        bool]): first.\n    y: second.";
    let doc = parse_google(src);
    let args = match &doc.items[0] {
        GoogleDocstringItem::Section(s) => match &s.body {
            GoogleSectionBody::Args(v) => v.clone(),
            _ => panic!("Args body expected"),
        },
        _ => panic!("section expected"),
    };
    assert_eq!(args.len(), 2);
    assert_eq!(slice(src, args[0].name), "x");
    assert_eq!(
        slice(src, args[0].ty.unwrap()),
        "Tuple[int,\n        str,\n        bool]"
    );
    assert_eq!(slice(src, args[0].description), "first.");
    assert_eq!(slice(src, args[0].range), "x (Tuple[int,\n        str,\n        bool]): first.");
    assert_eq!(slice(src, args[1].name), "y");
    assert_eq!(slice(src, args[1].description), "second.");
}

#[test]
fn items_start_in_strictly_increasing_order() {
    let g = "S.\n\nArgs:\n    x: X.\nReturns:\n    int: R.\nNotes:\n    N.\nRaises:\n    E: e.\n";
    let doc = parse_google(g);
    let ranges: Vec<TextRange> = doc
        .items
        .iter()
        .map(|it| match it {
            GoogleDocstringItem::Section(s) => s.range,
            GoogleDocstringItem::StrayLine(r) => *r,
        })
        .collect();
    assert_eq!(ranges.len(), 4);
    for r in &ranges {
        assert!(r.start < r.end);
    }
    for w in ranges.windows(2) {
        assert!(w[0].start < w[1].start);
        assert!(w[0].end <= w[1].start);
    }
    let n = "S.\n\nParameters\n----------\nx : int\nReturns\n-------\nint\nNotes\n-----\nText.\n";
    let doc = parse_numpy(n);
    let ranges: Vec<TextRange> = doc
        .items
        .iter()
        .map(|it| match it {
            NumPyDocstringItem::Section(s) => s.range,
            NumPyDocstringItem::StrayLine(r) => *r,
        })
        .collect();
    assert_eq!(ranges.len(), 3);
    for w in ranges.windows(2) {
        assert!(w[0].start < w[0].end);
        assert!(w[0].start < w[1].start && w[0].end <= w[1].start);
    }
    match &doc.sections()[2].body {
        NumPySectionBody::Notes(t) => assert_eq!(slice(n, t.unwrap()), "Text."),
        _ => panic!("Notes body expected"),
    }
}

#[test]
fn skip_blank_lines_stops_at_first_nonblank() {
    let src = "\n  \n\t\nx\n\ny";
    let mut c = Cursor::new(src);
    c.skip_blank_lines();
    assert_eq!(c.line, 3);
    assert!(!c.current_is_blank());
    c.advance();
    c.skip_blank_lines();
    assert_eq!(c.line, 5);
    c.advance();
    c.skip_blank_lines();
    assert!(c.is_eof());
    let mut far = Cursor::new(src);
    far.line = 40;
    far.skip_blank_lines();
    assert_eq!(far.line, 40);
    assert_eq!(far.total_lines(), 6);
}
