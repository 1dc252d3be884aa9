use vellum::stroke::{path_endpoints, ready_chunk, CHUNK_POINTS};

#[test]
fn a_path_ends_on_its_last_segment() {
    assert_eq!(path_endpoints(&[(0, 0), (1, 1), (2, 5)]), Some(((1, 1), (2, 5))));
    assert_eq!(path_endpoints(&[(0, 0), (3, 3)]), Some(((0, 0), (3, 3))));
    assert_eq!(path_endpoints(&[(0, 0)]), None);
    assert_eq!(path_endpoints::<(i32, i32)>(&[]), None);
}

#[test]
fn runs_are_kept_once_long_enough() {
    assert_eq!(CHUNK_POINTS, 2048);
    assert_eq!(ready_chunk(2048, 0), None);
    assert_eq!(ready_chunk(2049, 0), Some((2048, 2047)));
    assert_eq!(ready_chunk(4095, 2047), None);
    assert_eq!(ready_chunk(4096, 2047), Some((4095, 4094)));
    assert_eq!(ready_chunk(10, 20), None);
}
