use tapehead::repl::hexdump::render_hexdump;

fn text(bytes: Vec<u8>) -> String {
    String::from_utf8(bytes).unwrap()
}

#[test]
fn no_bytes_make_no_rows() {
    assert_eq!(render_hexdump(Some(0), b""), Vec::<u8>::new());
    assert_eq!(render_hexdump(Some(1234), b""), Vec::<u8>::new());
    assert_eq!(render_hexdump(None, b""), Vec::<u8>::new());
}

#[test]
fn one_byte_makes_one_short_row() {
    let out = text(render_hexdump(Some(0), &[0x41]));
    let expected = format!("{}{}{}{}\n", "   0:", " 41  ", " ".repeat(35), "  A");
    assert_eq!(out, expected);
    assert_eq!(out.len(), 5 + 40 + 2 + 1 + 1);
    assert_eq!(
        out,
        "   0: 41                                       A\n"
    );
}

#[test]
fn sixteen_bytes_make_one_full_row() {
    let data: Vec<u8> = (0u8..16).collect();
    let out = text(render_hexdump(Some(0), &data));
    assert_eq!(
        out,
        "   0: 0001 0203 0405 0607 0809 0a0b 0c0d 0e0f  ................\n"
    );
    assert_eq!(out.matches('\n').count(), 1);
}

#[test]
fn seventeen_bytes_make_a_full_row_and_a_row_of_one() {
    let data: Vec<u8> = (0u8..17).collect();
    let out = text(render_hexdump(Some(0), &data));
    assert_eq!(
        out,
        "   0: 0001 0203 0405 0607 0809 0a0b 0c0d 0e0f  ................\n  16: 10                                       .\n"
    );
    assert_eq!(out.matches('\n').count(), 2);
}

#[test]
fn rows_count_sixteen_bytes_each() {
    for len in 1usize..=100 {
        let data = vec![0x2au8; len];
        let out = text(render_hexdump(Some(7), &data));
        assert_eq!(out.matches('\n').count(), (len + 15) / 16);
        assert!(out.ends_with('\n'));
        for (k, row) in out.lines().enumerate() {
            let shown = if (k + 1) * 16 <= len { 16 } else { len - k * 16 };
            assert_eq!(row.len(), 5 + 40 + 2 + shown);
            assert_eq!(row[..5].trim_start(), format!("{}:", 7 + 16 * k));
            assert_eq!(&row[45..47], "  ");
            assert_eq!(&row[47..], "*".repeat(shown));
        }
    }
}

#[test]
fn printable_bytes_show_as_themselves() {
    let data = b"Hello, world! ~\x7f";
    let out = text(render_hexdump(Some(0), data));
    assert_eq!(
        out,
        "   0: 4865 6c6c 6f2c 2077 6f72 6c64 2120 7e7f  Hello, world! ~.\n"
    );
    let edges = [0x1fu8, 0x20, 0x7e, 0x7f, 0x0a, 0x00, 0xff, 0x80];
    let out = text(render_hexdump(Some(0), &edges));
    assert_eq!(
        out,
        "   0: 1f20 7e7f 0a00 ff80                      . ~.....\n"
    );
}

#[test]
fn short_rows_keep_the_text_column_in_place() {
    let out = text(render_hexdump(Some(0), b"ab"));
    assert_eq!(out, format!("   0: 6162{}  ab\n", " ".repeat(35)));
    let out = text(render_hexdump(Some(0), b"abc"));
    assert_eq!(out, format!("   0: 6162 63  {}  abc\n", " ".repeat(30)));
    let out = text(render_hexdump(Some(0), b"abcdefghijklmno"));
    assert_eq!(
        out,
        "   0: 6162 6364 6566 6768 696a 6b6c 6d6e 6f    abcdefghijklmno\n"
    );
}

#[test]
fn offsets_begin_where_the_bytes_stand() {
    let data: Vec<u8> = (0x30u8..0x30 + 20).collect();
    let out = text(render_hexdump(Some(1000), &data));
    assert_eq!(
        out,
        "1000: 3031 3233 3435 3637 3839 3a3b 3c3d 3e3f  0123456789:;<=>?\n1016: 4041 4243                                @ABC\n"
    );
    let unknown = text(render_hexdump(None, &data));
    let at_zero = text(render_hexdump(Some(0), &data));
    assert_eq!(unknown, at_zero);
    assert!(at_zero.starts_with("   0: "));
}

#[test]
fn the_offset_column_grows_with_the_last_row() {
    let data = vec![0u8; 17];
    let out = text(render_hexdump(Some(99990), &data));
    let rows: Vec<&str> = out.lines().collect();
    assert_eq!(rows.len(), 2);
    assert!(rows[0].starts_with(" 99990: 0000"));
    assert!(rows[1].starts_with("100006: 00  "));
    assert_eq!(rows[0].len(), 7 + 40 + 2 + 16);
    assert_eq!(rows[1].len(), 7 + 40 + 2 + 1);

    let out = text(render_hexdump(Some(9984), &data));
    let rows: Vec<&str> = out.lines().collect();
    assert!(rows[0].starts_with(" 9984: "));
    assert!(rows[1].starts_with("10000: "));

    let out = text(render_hexdump(Some(9983), &vec![0u8; 16]));
    assert!(out.starts_with("9983: "));
}

#[test]
fn offsets_past_the_largest_position_are_still_written() {
    let data = vec![0u8; 33];
    let out = text(render_hexdump(Some(u64::MAX), &data));
    let rows: Vec<&str> = out.lines().collect();
    assert_eq!(rows.len(), 3);
    assert!(rows[0].starts_with("18446744073709551615: "));
    assert!(rows[1].starts_with("18446744073709551631: "));
    assert!(rows[2].starts_with("18446744073709551647: "));
}
