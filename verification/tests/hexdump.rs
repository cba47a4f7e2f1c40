use eldenring_practice_tool::hexdump::hex_dump;

#[test]
fn hex_dump_of_a_short_block() {
    let lines = hex_dump(&[0x41, 0x80]);
    let expected = format!("41 80 {}A.", " ".repeat(2 + 28));
    assert_eq!(lines, vec![expected]);
}

#[test]
fn hex_dump_breaks_lines_every_sixteen_bytes() {
    let bytes: Vec<u8> = (0u8..20).map(|i| b'a' + i).collect();
    let lines = hex_dump(&bytes);
    assert_eq!(lines.len(), 2);
    assert_eq!(
        lines[0],
        "61 62 63 64 65 66 67 68 69 6a 6b 6c 6d 6e 6f 70   abcdefghijklmnop"
    );
    assert_eq!(lines[1], format!("71 72 73 74 {}qrst", " ".repeat(2 + 24)));
}

#[test]
fn hex_dump_of_nothing_is_empty() {
    assert!(hex_dump(&[]).is_empty());
}
