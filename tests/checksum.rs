use traceroute::checksum;

#[test]
fn tests() {
    assert_eq!(255, checksum(b"\xFF"));
    assert_eq!(4095, checksum(b"\xF0"));
    assert_eq!(61695, checksum(b"\x0F"));

    assert_eq!(65535, checksum(b""));
    assert_eq!(65535, checksum(b"\x00"));
    assert_eq!(65535, checksum(b"\x00\x00"));
    assert_eq!(65535, checksum(b"\x00\x00\x00"));

    assert_eq!(40703, checksum(b"a"));
    assert_eq!(40703, checksum(b"a\x00"));
    assert_eq!(40703, checksum(b"a\x00\x00"));
    assert_eq!(40703, checksum(b"a\x00\x00\x00"));
    assert_eq!(65438, checksum(b"\x00a"));
    assert_eq!(40703, checksum(b"\x00\x00a"));
    assert_eq!(65438, checksum(b"\x00\x00\x00a"));
    assert_eq!(40703, checksum(b"\x00\x00\x00\x00a"));

    assert_eq!(40605, checksum(b"ab"));
    assert_eq!(15261, checksum(b"abc"));
    assert_eq!(15161, checksum(b"abcd"));
    assert_eq!(54840, checksum(b"abcde"));
    assert_eq!(54738, checksum(b"abcdef"));
    assert_eq!(28370, checksum(b"abcdefg"));
    assert_eq!(10632, checksum(b"qwe"));
    assert_eq!(46236, checksum(b"qwerty"));
    assert_eq!(51387, checksum(b"foobar"));

    assert_eq!(16320, checksum(&(0u8..=255u8).collect::<Vec<u8>>()));
}

#[test]
fn checksum_of_empty_buffer_is_all_ones() {
    assert_eq!(checksum(&[]), 0xFFFF);
}

#[test]
fn checksum_of_zero_buffers_is_all_ones() {
    for len in [1usize, 2, 7, 8, 1000, 65537] {
        assert_eq!(checksum(&vec![0u8; len]), 0xFFFF, "length {}", len);
    }
}

#[test]
fn trailing_zero_keeps_checksum_of_odd_buffers() {
    for data in [&b"a"[..], b"abc", b"qwerty!", b"\xFF\x01\x80"] {
        let mut padded = data.to_vec();
        padded.push(0);
        assert_eq!(checksum(data), checksum(&padded));
    }
}

#[test]
fn checksum_folds_carries_over_large_input() {
    // 70000 words of 0xFFFF: every addition carries.
    assert_eq!(checksum(&vec![0xFFu8; 140000]), 0);
    // 0x0001 + 0xFFFF folds to 0x0001.
    assert_eq!(checksum(&[0x00, 0x01, 0xFF, 0xFF]), 0xFFFE);
}
