use wz_store::encode_animated_image;
use wz_store::split_path;

#[test]
fn empty_path_has_no_segments() {
    assert!(split_path("").is_empty());
}

#[test]
fn single_segment() {
    assert_eq!(split_path("Item"), vec!["Item".to_owned()]);
}

#[test]
fn nested_segments() {
    assert_eq!(
        split_path("Item/0100.img/info"),
        vec!["Item".to_owned(), "0100.img".to_owned(), "info".to_owned()]
    );
}

#[test]
fn delimiters_at_the_edges_yield_empty_segments() {
    assert_eq!(split_path("/a"), vec!["".to_owned(), "a".to_owned()]);
    assert_eq!(split_path("a/"), vec!["a".to_owned(), "".to_owned()]);
    assert_eq!(split_path("a//b"), vec!["a".to_owned(), "".to_owned(), "b".to_owned()]);
    assert_eq!(split_path("/"), vec!["".to_owned(), "".to_owned()]);
}

#[test]
fn transcode_success_passes_bytes_through() {
    let bytes = vec![0x52u8, 0x49, 0x46, 0x46];
    assert_eq!(encode_animated_image(Some(bytes.clone())), bytes);
}

#[test]
fn transcode_failure_degrades_to_empty_bytes() {
    // Arbitrary garbage that no codec accepts ends as the empty payload,
    // never as a raised error.
    assert_eq!(encode_animated_image(None), Vec::<u8>::new());
}
