use png_filters::fallbacks::recon_sub;
use png_filters::unfilter_lines;

fn row(tag: u8, payload: &[u8]) -> Vec<u8> {
    let mut r = vec![tag];
    r.extend_from_slice(payload);
    r
}

#[test]
fn test_unfilter_sub_single_row() {
    let mut lines = vec![row(1, &[1, 2, 3, 255, 5, 6, 7, 8])];
    unfilter_lines::<1>(&mut lines);
    assert_eq!(lines, vec![row(0, &[1, 3, 6, 5, 10, 16, 23, 31])]);
}

#[test]
fn test_unfilter_sub_bpp2() {
    let mut lines = vec![row(1, &[1, 2, 3, 255, 5, 6, 7, 8])];
    unfilter_lines::<2>(&mut lines);
    assert_eq!(lines, vec![row(0, &[1, 2, 4, 1, 9, 7, 16, 15])]);
}

#[test]
fn test_unfilter_up_row() {
    let mut lines = vec![
        row(0, &[12, 17, 127, 128, 255, 250, 7, 54]),
        row(2, &[1, 2, 3, 255, 5, 6, 7, 8]),
    ];
    unfilter_lines::<1>(&mut lines);
    assert_eq!(
        lines,
        vec![
            row(0, &[12, 17, 127, 128, 255, 250, 7, 54]),
            row(0, &[13, 19, 130, 127, 4, 0, 14, 62]),
        ]
    );
}

#[test]
fn test_unfilter_average_row() {
    let mut lines = vec![
        row(0, &[12, 17, 127, 128, 255, 250, 7, 54]),
        row(3, &[1, 2, 3, 255, 5, 6, 7, 8]),
    ];
    unfilter_lines::<1>(&mut lines);
    assert_eq!(
        lines,
        vec![
            row(0, &[12, 17, 127, 128, 255, 250, 7, 54]),
            row(0, &[7, 14, 73, 99, 182, 222, 121, 95]),
        ]
    );
}

#[test]
fn test_unfilter_average_top_row() {
    let mut lines = vec![row(3, &[1, 2, 3, 255, 5, 6, 7, 8])];
    unfilter_lines::<1>(&mut lines);
    assert_eq!(lines, vec![row(0, &[1, 2, 4, 1, 5, 8, 11, 13])]);
}

#[test]
fn test_unfilter_paeth_row() {
    let mut lines = vec![
        row(0, &[12, 17, 127, 128, 255, 250, 7, 54]),
        row(4, &[1, 2, 3, 255, 5, 6, 7, 8]),
    ];
    unfilter_lines::<1>(&mut lines);
    assert_eq!(
        lines,
        vec![
            row(0, &[12, 17, 127, 128, 255, 250, 7, 54]),
            row(0, &[13, 19, 130, 129, 4, 10, 14, 62]),
        ]
    );
}

// A Paeth-tagged top row must reconstruct exactly as a Sub-tagged one does,
// for every bytes-per-pixel value.
#[test]
fn test_unfilter_first_row_paeth_matches_sub() {
    let payload = [1, 2, 3, 255, 5, 6, 7, 8];
    let mut via_paeth = vec![row(4, &payload)];
    let mut via_sub = vec![row(1, &payload)];
    unfilter_lines::<1>(&mut via_paeth);
    unfilter_lines::<1>(&mut via_sub);
    assert_eq!(via_paeth, via_sub);
    //
    let mut via_paeth = vec![row(4, &payload)];
    let mut via_sub = vec![row(1, &payload)];
    unfilter_lines::<4>(&mut via_paeth);
    unfilter_lines::<4>(&mut via_sub);
    assert_eq!(via_paeth, via_sub);
}

// An Up-tagged top row adds the conceptual all-zero row above: a no-op.
#[test]
fn test_unfilter_first_row_up_is_noop() {
    let mut lines = vec![row(2, &[9, 8, 7, 6])];
    unfilter_lines::<1>(&mut lines);
    assert_eq!(lines, vec![row(0, &[9, 8, 7, 6])]);
}

// Every row's tag byte comes out as 0, whatever it was on the way in.
#[test]
fn test_unfilter_tags_zeroed() {
    let payload = [1, 2, 3, 255, 5, 6, 7, 8];
    let mut lines: Vec<Vec<u8>> = [0u8, 1, 2, 3, 4, 5, 99, 255]
        .iter()
        .map(|&tag| row(tag, &payload))
        .collect();
    unfilter_lines::<2>(&mut lines);
    for line in &lines {
        assert_eq!(line[0], 0);
    }
}

// A tag of 0 or an unrecognized tag leaves the payload bytes untouched.
#[test]
fn test_unfilter_unknown_tag_payload_unchanged() {
    let payload = [1, 2, 3, 255, 5, 6, 7, 8];
    for tag in [0u8, 5, 17, 255] {
        let mut lines = vec![row(tag, &payload)];
        unfilter_lines::<1>(&mut lines);
        assert_eq!(lines, vec![row(0, &payload)]);
        //
        let mut lines = vec![row(0, &payload), row(tag, &payload)];
        unfilter_lines::<1>(&mut lines);
        assert_eq!(lines, vec![row(0, &payload), row(0, &payload)]);
    }
}

// Average uses floor division on a widened sum: a payload byte of 255 over
// an all-zero previous row gets floor((0 + 0) / 2) = 0 added and stays 255;
// its right neighbor then gets floor((255 + 0) / 2) = 127 added.
#[test]
fn test_unfilter_average_floor_semantics() {
    let mut lines = vec![row(0, &[0, 0]), row(3, &[255, 5])];
    unfilter_lines::<1>(&mut lines);
    assert_eq!(lines, vec![row(0, &[0, 0]), row(0, &[255, 132])]);
}

#[test]
fn test_unfilter_empty_buffer() {
    let mut lines: Vec<Vec<u8>> = Vec::new();
    unfilter_lines::<3>(&mut lines);
    assert!(lines.is_empty());
}

#[test]
fn test_unfilter_tag_only_rows() {
    let mut lines = vec![vec![7u8], vec![3u8]];
    unfilter_lines::<8>(&mut lines);
    assert_eq!(lines, vec![vec![0u8], vec![0u8]]);
}

#[test]
fn test_unfilter_multi_row_chain() {
    let mut lines = vec![row(1, &[1, 2, 3]), row(2, &[10, 20, 30]), row(3, &[2, 2, 2])];
    unfilter_lines::<1>(&mut lines);
    assert_eq!(
        lines,
        vec![row(0, &[1, 3, 6]), row(0, &[11, 23, 36]), row(0, &[7, 17, 28])]
    );
}

#[test]
fn test_recon_sub_bpp8_two_groups() {
    let mut actual = [1, 2, 3, 4, 5, 6, 7, 8, 9, 10, 11, 12, 13, 14, 15, 16];
    recon_sub::<8>(&mut actual);
    let expected = [1, 2, 3, 4, 5, 6, 7, 8, 10, 12, 14, 16, 18, 20, 22, 24];
    assert_eq!(expected, actual);
}
