use desktop_things::battery::{gauge_triangles, parse_charge, GAUGE_POINTS};
use desktop_things::clock::clock_text;
use desktop_things::number::decimal_text;
use desktop_things::tags::{
    focus_tag_arguments, shown_tags, tag_label, tags_in_use, views_union, UnreadableTags,
};

#[test]
fn numbers_are_written_in_decimal() {
    for n in [0, 7, 9, 10, 42, 100, 1 << 30, u32::MAX] {
        assert_eq!(decimal_text(n), format!("{}", n));
    }
}

#[test]
fn charges_are_read() {
    assert_eq!(parse_charge("4380000\n"), Some(4_380_000));
    assert_eq!(parse_charge(" \t+7\u{a0}\n"), Some(7));
    assert_eq!(parse_charge("0"), Some(0));
    assert_eq!(parse_charge("00012"), Some(12));
}

#[test]
fn what_is_no_charge_is_refused() {
    for text in ["", " \n", "+", "-1", "1 2", "12a", "++1", "1_000", "12.5", "\u{663}"] {
        assert_eq!(parse_charge(text), None, "{:?}", text);
    }
}

#[test]
fn charges_have_the_range_of_a_usize() {
    assert_eq!(parse_charge(&format!("{}\n", usize::MAX)), Some(usize::MAX));
    assert_eq!(parse_charge(&format!("{}", usize::MAX as u128 + 1)), None);
    assert_eq!(parse_charge(&format!("{}0", usize::MAX)), None);
}

#[test]
fn charges_are_read_as_the_standard_library_reads_them() {
    let mut texts: Vec<String> = Vec::new();
    for code in 0..=0x30ff_u32 {
        if let Some(c) = char::from_u32(code) {
            texts.push(format!("{}15{}", c, c));
            texts.push(format!("1{}5", c));
        }
    }
    for text in texts {
        assert_eq!(parse_charge(&text), text.trim().parse::<usize>().ok(), "{:?}", text);
    }
}

#[test]
fn decimal_charges_read_back() {
    for n in [0u32, 9, 10, 99, 123_456, u32::MAX] {
        let text = format!("\r\n {} \u{3000}", decimal_text(n));
        assert_eq!(parse_charge(&text), Some(n as usize));
    }
}

#[test]
fn the_gauge_is_a_fan_around_its_center() {
    assert_eq!(gauge_triangles(1), vec![]);
    assert_eq!(gauge_triangles(4), vec![(0, 0, 1), (1, 0, 2), (2, 0, 3)]);
    let full = gauge_triangles(GAUGE_POINTS + 1);
    assert_eq!(full.len(), 100);
    assert_eq!(full[99], (99, 0, 100));
}

#[test]
fn the_clock_has_twelve_hours() {
    assert_eq!(clock_text(0, 0), "12\n00");
    assert_eq!(clock_text(12, 5), "12\n05");
    assert_eq!(clock_text(1, 59), "01\n59");
    assert_eq!(clock_text(13, 59), "01\n59");
    assert_eq!(clock_text(23, 30), "11\n30");
}

#[test]
fn the_clock_agrees_with_a_formatted_time() {
    for hour in 0..24 {
        for minute in 0..60 {
            let time = chrono::NaiveDate::from_ymd_opt(2024, 2, 29)
                .unwrap()
                .and_hms_opt(hour, minute, 59)
                .unwrap();
            assert_eq!(clock_text(hour, minute), time.format("%I\n%M").to_string());
        }
    }
}

#[test]
fn tags_of_views_are_united() {
    assert_eq!(views_union(&[]), 0);
    assert_eq!(views_union(&[0b1, 0b100]), 0b101);
    assert_eq!(views_union(&[0b11, 0b110, 1 << 31]), 0b111 | (1 << 31));
}

#[test]
fn view_tags_come_as_bytes_of_numbers() {
    let views: [u32; 3] = [0x0001_0000, 0x0000_0004, 0x8000_0000];
    assert_eq!(tags_in_use(bytemuck::cast_slice(&views)), Ok(0x8001_0004));
    assert_eq!(tags_in_use(&[]), Ok(0));
}

#[test]
fn broken_view_tags_are_refused() {
    let views: [u32; 2] = [1, 2];
    let bytes: &[u8] = bytemuck::cast_slice(&views);
    assert_eq!(tags_in_use(&bytes[..7]), Err(UnreadableTags));
    assert_eq!(tags_in_use(&bytes[..3]), Err(UnreadableTags));
    // Four bytes, but not at the address of a number.
    assert_eq!(tags_in_use(&bytes[1..5]), Err(UnreadableTags));
}

#[test]
fn used_tags_get_buttons() {
    assert_eq!(shown_tags(0), vec![]);
    assert_eq!(shown_tags(0b1011), vec![0, 1, 3]);
    assert_eq!(shown_tags(1 << 30), vec![30]);
    assert_eq!(shown_tags(1 << 31), vec![]);
    assert_eq!(shown_tags(u32::MAX).len(), 31);
}

#[test]
fn buttons_are_labelled_and_focus_their_tag() {
    assert_eq!(tag_label(0), "1");
    assert_eq!(tag_label(30), "31");
    assert_eq!(focus_tag_arguments(0), vec!["set-focused-tags", "1"]);
    assert_eq!(focus_tag_arguments(4), vec!["set-focused-tags", "16"]);
    assert_eq!(focus_tag_arguments(30), vec!["set-focused-tags", "1073741824"]);
}
