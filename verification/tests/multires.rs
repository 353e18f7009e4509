use krpano::multires::parse_multires;
use krpano::Vec2d;

fn ok(width: u32, height: u32, tile: u32) -> Result<(Vec2d, Vec2d), &'static str> {
    Ok((Vec2d { x: width, y: height }, Vec2d { x: tile, y: tile }))
}

#[test]
fn multires_parse() {
    assert_eq!(
        vec![
            Ok((Vec2d { x: 6, y: 7 }, Vec2d { x: 3, y: 3 })),
            Ok((Vec2d { x: 8, y: 8 }, Vec2d { x: 3, y: 3 })),
            Ok((Vec2d { x: 9, y: 1 }, Vec2d { x: 4, y: 4 })),
        ],
        parse_multires("3,6x7,8x8,9x1x4")
    )
}

#[test]
fn multires_width_alone_is_square() {
    assert_eq!(parse_multires("512,1024"), vec![ok(1024, 1024, 512)]);
}

#[test]
fn multires_keeps_the_order_of_the_entries() {
    let entries = parse_multires("512,768x554,1664x1202,3200x2310,6400x4618,12800x9234");
    assert_eq!(
        entries,
        vec![
            ok(768, 554, 512),
            ok(1664, 1202, 512),
            ok(3200, 2310, 512),
            ok(6400, 4618, 512),
            ok(12800, 9234, 512),
        ]
    );
}

#[test]
fn multires_has_one_entry_for_each_field_after_the_first() {
    let text = "256,1x1,2x2,3x3,4x4,5x5,6x6,7x7";
    let entries = parse_multires(text);
    assert_eq!(entries.len(), text.split(',').count() - 1);
    assert!(entries.iter().all(|entry| entry.is_ok()));
    for (i, entry) in entries.iter().enumerate() {
        let side = i as u32 + 1;
        assert_eq!(*entry, ok(side, side, 256));
    }
}

#[test]
fn multires_without_entries_is_empty() {
    assert_eq!(parse_multires("512"), vec![]);
}

#[test]
fn multires_missing_tilesize() {
    assert_eq!(parse_multires(""), vec![Err("missing tilesize")]);
    assert_eq!(parse_multires("x,6x7"), vec![Err("missing tilesize")]);
    assert_eq!(parse_multires(",6x7,8x8"), vec![Err("missing tilesize")]);
    assert_eq!(parse_multires("12a,6x7"), vec![Err("missing tilesize")]);
    assert_eq!(parse_multires(" 3,6x7"), vec![Err("missing tilesize")]);
    assert_eq!(parse_multires("-3,6x7"), vec![Err("missing tilesize")]);
    assert_eq!(parse_multires("3x3,6x7"), vec![Err("missing tilesize")]);
}

#[test]
fn multires_invalid_width_leaves_the_other_entries() {
    assert_eq!(
        parse_multires("3,6x7,axb,8x8,,x5,9x1x4"),
        vec![
            ok(6, 7, 3),
            Err("invalid width"),
            ok(8, 8, 3),
            Err("invalid width"),
            Err("invalid width"),
            ok(9, 1, 4),
        ]
    );
}

#[test]
fn multires_trailing_comma_is_an_entry_without_width() {
    assert_eq!(parse_multires("3,6x7,"), vec![ok(6, 7, 3), Err("invalid width")]);
}

#[test]
fn multires_height_that_is_no_number_is_the_width() {
    assert_eq!(parse_multires("3,6xq"), vec![ok(6, 6, 3)]);
    assert_eq!(parse_multires("3,6x"), vec![ok(6, 6, 3)]);
    assert_eq!(parse_multires("3,6xx5"), vec![ok(6, 6, 5)]);
}

#[test]
fn multires_tilesize_that_is_no_number_is_the_base() {
    assert_eq!(parse_multires("3,6x7xq"), vec![ok(6, 7, 3)]);
    assert_eq!(parse_multires("3,6x7x"), vec![ok(6, 7, 3)]);
}

#[test]
fn multires_reads_no_more_than_three_dimensions() {
    assert_eq!(parse_multires("3,6x7x8x9"), vec![ok(6, 7, 8)]);
    assert_eq!(parse_multires("3,6x7x8xq"), vec![ok(6, 7, 8)]);
}

#[test]
fn multires_numbers_as_std_reads_them() {
    for text in ["0", "7", "007", "+7", "4294967295", "00000000000000000000012"] {
        let expected: u32 = text.parse().unwrap();
        let attribute = format!("{},{}x{}x{}", text, text, text, text);
        assert_eq!(
            parse_multires(&attribute),
            vec![ok(expected, expected, expected)],
            "{}",
            text
        );
    }
    for text in ["", "+", "-", "-7", "++7", "7+", "4294967296", "99999999999999999999", "1_0", "٣", "7 "] {
        assert!(text.parse::<u32>().is_err());
        assert_eq!(parse_multires(text), vec![Err("missing tilesize")], "{}", text);
        let attribute = format!("5,{}", text);
        assert_eq!(parse_multires(&attribute), vec![Err("invalid width")], "{}", text);
    }
}

#[test]
fn multires_largest_number() {
    assert_eq!(
        parse_multires("4294967295,4294967295x4294967294"),
        vec![ok(4294967295, 4294967294, 4294967295)]
    );
    assert_eq!(parse_multires("1,4294967296"), vec![Err("invalid width")]);
    assert_eq!(parse_multires("1,5x4294967296"), vec![ok(5, 5, 1)]);
}

#[test]
fn vec2d_square() {
    assert_eq!(Vec2d::square(4), Vec2d { x: 4, y: 4 });
    assert_eq!(Vec2d::square(0), Vec2d { x: 0, y: 0 });
}
