use module_live_telemetry::encode_v2::DecodedColumn;
use module_live_telemetry::frame_window::{column_words, trim_column, trim_to_frames};

#[test]
fn test_trim_column_keeps_window_rows() {
    let ticks = [5u64, 6, 7, 8];
    let col = [50u64, 60, 70, 80];
    assert_eq!(trim_column(&ticks, &col, Some(6), Some(7)), vec![60, 70]);
    assert_eq!(trim_column(&ticks, &col, Some(7), None), vec![70, 80]);
    assert_eq!(trim_column(&ticks, &col, None, Some(5)), vec![50]);
}

#[test]
fn test_trim_column_array_cells() {
    // Three cells per frame.
    let ticks = [1u64, 2, 3];
    let col = [1u64, 1, 1, 2, 2, 2, 3, 3, 3];
    assert_eq!(trim_column(&ticks, &col, Some(2), Some(2)), vec![2, 2, 2]);
    // A remainder past the last whole frame is dropped.
    let col = [1u64, 1, 2, 2, 3, 3, 9];
    assert_eq!(trim_column(&ticks, &col, Some(1), Some(3)), vec![1, 1, 2, 2, 3, 3]);
}

#[test]
fn test_trim_to_frames_without_window_keeps_all() {
    let cols = vec![vec![1u64, 2, 3], vec![7u64]];
    assert_eq!(trim_to_frames(&[1, 2], cols.clone(), None, None), cols);
}

#[test]
fn test_trim_to_frames_without_ticks_empties() {
    let cols = vec![vec![1u64, 2, 3]];
    assert_eq!(trim_to_frames(&[], cols, Some(0), None), vec![Vec::<u64>::new()]);
}

#[test]
fn test_column_words_concatenates_pieces() {
    let pieces = vec![
        DecodedColumn { codec: 0, value_type: 0, words: vec![1, 2] },
        DecodedColumn { codec: 0, value_type: 0, words: vec![] },
        DecodedColumn { codec: 1, value_type: 0, words: vec![3] },
    ];
    assert_eq!(column_words(&pieces), vec![1, 2, 3]);
}
