use bbs_encoding::hashing::EncodeForHash;

fn joined(a: &[u8], b: &[u8]) -> Vec<u8> {
    let mut out = a.encode_for_hash();
    out.extend_from_slice(&b.encode_for_hash());
    out
}

#[test]
fn encode_for_hash_test_vector() {
    let input = [0x01u8, 0x4d];
    let expected = [0x00u8, 0x00, 0x00, 0x00, 0x00, 0x00, 0x00, 0x02, 0x01, 0x4d];

    let actual = input.as_slice().encode_for_hash();

    assert_eq!(actual, expected);
}

#[test]
fn empty_buffer_is_framed_as_its_length_alone() {
    let input: [u8; 0] = [];
    assert_eq!(input.as_slice().encode_for_hash(), vec![0u8; 8]);
}

#[test]
fn long_buffer_has_its_length_in_two_octets() {
    let input = vec![7u8; 300];
    let out = input.as_slice().encode_for_hash();
    assert_eq!(out.len(), 308);
    assert_eq!(&out[..8], &[0, 0, 0, 0, 0, 0, 1, 44]);
    assert_eq!(&out[8..], input.as_slice());
}

#[test]
fn buffers_of_different_lengths_are_framed_differently() {
    let a = [1u8, 2, 3];
    let b = [1u8, 2];
    assert_ne!(a.as_slice().encode_for_hash(), b.as_slice().encode_for_hash());
    let zeros = [0u8; 9];
    let none: [u8; 0] = [];
    assert_ne!(zeros.as_slice().encode_for_hash(), none.as_slice().encode_for_hash());
}

#[test]
fn buffers_of_different_content_are_framed_differently() {
    let a = [1u8, 2, 3];
    let b = [1u8, 2, 4];
    assert_ne!(a.as_slice().encode_for_hash(), b.as_slice().encode_for_hash());
}

#[test]
fn joined_frames_keep_the_split() {
    let left = joined(b"ab", b"c");
    let right = joined(b"a", b"bc");
    assert_ne!(left, right);
    assert_eq!(left, vec![0, 0, 0, 0, 0, 0, 0, 2, 97, 98, 0, 0, 0, 0, 0, 0, 0, 1, 99]);
    assert_eq!(right, vec![0, 0, 0, 0, 0, 0, 0, 1, 97, 0, 0, 0, 0, 0, 0, 0, 2, 98, 99]);
    assert_ne!(joined(b"abc", b""), joined(b"", b"abc"));
}

#[test]
fn length_takes_eight_octets() {
    assert_eq!(bbs_encoding::hashing::LENGTH_WIDTH, 8);
    let input = [9u8; 5];
    assert_eq!(input.as_slice().encode_for_hash().len(), 13);
}
