use herdr_gui::frame::{CellData, FrameData};
use herdr_gui::selection::{ordered, selection_text};

fn frame_from(lines: &[&str]) -> FrameData {
    let width = lines.iter().map(|l| l.chars().count()).max().unwrap_or(0) as u16;
    let height = lines.len() as u16;
    let mut cells = Vec::new();
    for line in lines {
        let chars: Vec<char> = line.chars().collect();
        for col in 0..width as usize {
            let symbol = chars.get(col).copied().unwrap_or(' ').to_string();
            cells.push(CellData { symbol, fg: 0, bg: 0, modifier: 0, skip: false });
        }
    }
    FrameData { cells, width, height, cursor: None }
}

#[test]
fn selection_single_line_trims_trailing_space() {
    let frame = frame_from(&["hello world   ", "second line"]);
    // Select "hello world" on row 0 (cols 0..=10).
    let text = selection_text(&frame, (0, 0), (10, 0));
    assert_eq!(text, "hello world");
}

#[test]
fn selection_multi_line_joins_with_newline() {
    let frame = frame_from(&["abcdef", "ghijkl"]);
    // From (2,0) to (3,1): "cdef" + "\n" + "ghij".
    let text = selection_text(&frame, (2, 0), (3, 1));
    assert_eq!(text, "cdef\nghij");
}

#[test]
fn selection_handles_reversed_endpoints() {
    let frame = frame_from(&["abcdef"]);
    let forward = selection_text(&frame, (1, 0), (3, 0));
    let backward = selection_text(&frame, (3, 0), (1, 0));
    assert_eq!(forward, "bcd");
    assert_eq!(backward, "bcd");
}

#[test]
fn ordered_sorts_by_row_then_column() {
    assert_eq!(ordered((5, 1), (2, 3)), ((5, 1), (2, 3)));
    assert_eq!(ordered((2, 3), (5, 1)), ((5, 1), (2, 3)));
    assert_eq!(ordered((4, 2), (1, 2)), ((1, 2), (4, 2)));
}

#[test]
fn selection_past_the_bottom_is_clamped() {
    let frame = frame_from(&["ab  ", "cd  "]);
    assert_eq!(selection_text(&frame, (1, 0), (0, 9)), "b\ncd");
}

#[test]
fn selection_in_an_empty_frame_is_empty() {
    let frame = frame_from(&[]);
    assert_eq!(selection_text(&frame, (0, 0), (3, 0)), "");
}

#[test]
fn selection_middle_rows_are_whole() {
    let frame = frame_from(&["abc", "def", "ghi"]);
    assert_eq!(selection_text(&frame, (2, 0), (0, 2)), "c\ndef\ng");
}
