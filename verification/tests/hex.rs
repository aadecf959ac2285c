use cairn::hex::format_bytes;

#[test]
fn short_renderings_are_kept_whole() {
    assert_eq!(format_bytes(&vec![], 6), "");
    assert_eq!(format_bytes(&vec![0xab], 6), "ab");
    assert_eq!(format_bytes(&vec![0x01, 0x23, 0x45], 6), "012345");
}

#[test]
fn long_renderings_keep_both_ends() {
    assert_eq!(
        format_bytes(&vec![0x01, 0x23, 0x45, 0x67, 0x89], 6),
        "012345...456789"
    );
    assert_eq!(format_bytes(&vec![0x00; 32], 6), "000000...000000");
    assert_eq!(format_bytes(&vec![0xde, 0xad, 0xbe, 0xef], 2), "de...ef");
}

#[test]
fn zero_width_keeps_only_the_ellipsis() {
    assert_eq!(format_bytes(&vec![0xff], 0), "...");
}

#[test]
fn every_nibble_is_rendered() {
    assert_eq!(
        format_bytes(&vec![0x01, 0x23, 0x45, 0x67, 0x89, 0xab, 0xcd, 0xef], 16),
        "0123456789abcdef"
    );
}
