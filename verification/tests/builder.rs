use worker_pool::builder::{make_copyable_buf, slice_to_vec, Builder, ToBytes};

#[test]
fn new_builder_is_empty() {
    assert_eq!(Builder::new(16).len(), 0);
    assert_eq!(Builder::new(0).len(), 0);
    assert_eq!(Builder::default().len(), 0);
    assert_eq!(Builder::default().string().unwrap(), "");
}

#[test]
fn append_adds_behind_what_is_there() {
    let mut builder = Builder::new(4);
    builder.append("ab");
    builder.append(String::from("cd"));
    builder.append(b'e');
    builder.append('f');
    builder.append(&b"gh"[..]);
    assert_eq!(builder.len(), 8);
    assert_eq!(builder.string().unwrap(), "abcdefgh");
}

#[test]
fn len_counts_bytes_not_characters() {
    let mut builder = Builder::default();
    builder.append('é');
    assert_eq!(builder.len(), 2);
    builder.append("€");
    assert_eq!(builder.len(), 5);
    builder.append('😀');
    assert_eq!(builder.len(), 9);
    assert_eq!(builder.string().unwrap(), "é€😀");
}

#[test]
fn string_rejects_invalid_utf8_and_returns_the_bytes() {
    let mut builder = Builder::default();
    builder.append("ok");
    builder.append(0xFFu8);
    let error = builder.string().unwrap_err();
    assert_eq!(error.into_bytes(), vec![b'o', b'k', 0xFF]);
}

#[test]
fn string_rejects_a_truncated_sequence() {
    let mut builder = Builder::default();
    builder.append(&"é".as_bytes()[..1]);
    assert!(builder.string().is_err());
}

#[test]
fn char_bytes_are_its_utf8_encoding() {
    for c in ['\0', 'a', '\u{7f}', '\u{80}', 'é', '\u{7ff}', '\u{800}', '€', '\u{d7ff}',
              '\u{e000}', '\u{ffff}', '\u{10000}', '😀', '\u{10ffff}'] {
        let mut buf = [0u8; 4];
        assert_eq!(c.to_bytes(), c.encode_utf8(&mut buf).as_bytes().to_vec());
    }
}

#[test]
fn to_bytes_of_text_and_bytes() {
    assert_eq!("héllo".to_bytes(), "héllo".as_bytes().to_vec());
    assert_eq!(String::from("wörld").to_bytes(), "wörld".as_bytes().to_vec());
    assert_eq!(7u8.to_bytes(), vec![7u8]);
    assert_eq!((&[1u8, 2, 3][..]).to_bytes(), vec![1u8, 2, 3]);
    assert_eq!("".to_bytes(), Vec::<u8>::new());
}

#[test]
fn copyable_buf_is_all_zero() {
    assert_eq!(make_copyable_buf(0), Vec::<u8>::new());
    assert_eq!(make_copyable_buf(5), vec![0u8; 5]);
}

#[test]
fn slice_to_vec_copies_the_slice() {
    assert_eq!(slice_to_vec(&[]), Vec::<u8>::new());
    assert_eq!(slice_to_vec(&[9, 8, 7]), vec![9u8, 8, 7]);
}

#[test]
fn into_bytes_gives_what_was_appended() {
    let mut builder = Builder::new(2);
    builder.append(0xFFu8);
    builder.append("x");
    assert_eq!(builder.into_bytes(), vec![0xFF, b'x']);
}
