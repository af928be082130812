use mt2026::trace::segment_runs;

#[test]
fn gaps_split_the_line_and_points_keep_their_order() {
    let marks = [Some(1), Some(2), None, None, Some(3), Some(4)];
    assert_eq!(segment_runs(&marks), vec![vec![1, 2], vec![3, 4]]);
}

#[test]
fn leading_and_trailing_gaps_do_not_produce_empty_segments() {
    let marks = [None, None, Some((200.0f32, 200.0f32)), None];
    assert_eq!(segment_runs(&marks), vec![vec![(200.0, 200.0)]]);
}

#[test]
fn a_fully_unvoiced_track_draws_nothing_at_all() {
    let marks: Vec<Option<u8>> = vec![None; 10];
    assert!(segment_runs(&marks).is_empty());
    assert!(segment_runs::<u8>(&[]).is_empty());
}

#[test]
fn a_track_of_one_point_is_a_one_point_segment() {
    assert_eq!(segment_runs(&[Some(7)]), vec![vec![7]]);
}

#[test]
fn a_single_gap_between_points_breaks_the_line() {
    let marks = [Some('a'), None, Some('b'), Some('c'), None, Some('d')];
    assert_eq!(
        segment_runs(&marks),
        vec![vec!['a'], vec!['b', 'c'], vec!['d']]
    );
}
