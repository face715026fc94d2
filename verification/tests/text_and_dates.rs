use font_inspect::glyf::{format_component_flag, format_simple_flag};
use font_inspect::head::{
    civil_from_days, format_head_flags, format_long_date_time, format_mac_style, format_raw_bytes,
    is_reasonable_long_date_time, long_date_time_parts, DateTimeParts, SECS_BETWEEN_1904_AND_1970,
};
use font_inspect::os2::{format_fs_type, format_selection_flags, format_u32_hex};
use font_inspect::text::{
    char_string, dec_signed_string, dec_string, fixed_string, hex_0x_string, hex_string, join_strs,
    utf8_string,
};
use font_inspect::tuple_variations::{
    format_gvar_flags, format_tuple_index, format_tuple_variation_count, get_packed_deltas_len,
    get_packed_point_numbers_len,
};

#[test]
fn number_text() {
    assert_eq!(hex_string(255, 4), "00FF");
    assert_eq!(hex_string(0xABCDE, 2), "ABCDE");
    assert_eq!(dec_string(7, 3), "007");
    assert_eq!(dec_string(12345, 1), "12345");
    assert_eq!(dec_signed_string(-42), "-42");
    assert_eq!(dec_signed_string(i64::MIN), "-9223372036854775808");
    assert_eq!(hex_0x_string(0x1F, 2), "0x1F");
    assert_eq!(join_strs(&vec!["a", "b", "c"], ", "), "a, b, c");
    assert_eq!(join_strs(&vec![], ", "), "");
}

#[test]
fn fixed_point_text_is_shortest_decimal() {
    assert_eq!(fixed_string(0x0001_8000), "1.5");
    assert_eq!(fixed_string(0x0001_0000), "1");
    assert_eq!(fixed_string(-0x0000_8000), "-0.5");
    assert_eq!(fixed_string(0x0000_4000), "0.25");
    assert_eq!(fixed_string(0), "0");
}

#[test]
fn fixed_point_text_matches_font_types() {
    let mut raws = vec![i32::MIN, i32::MAX, -1, 1, 0x7FFF, 0x0001_0001, -0x0001_0001, 6554, 65535];
    let mut r: i64 = -2_000_000_000;
    while r < 2_000_000_000 {
        raws.push(r as i32);
        r += 7_919_993;
    }
    for raw in 0..70_000 {
        raws.push(raw);
    }
    for raw in raws {
        assert_eq!(fixed_string(raw), read_fonts::types::Fixed::from_bits(raw).to_string(), "raw {}", raw);
    }
}

#[test]
fn characters_and_utf8() {
    assert_eq!(char_string('A'), "A");
    assert_eq!(char_string('é'), "é");
    assert_eq!(utf8_string(b"wght"), Some("wght".to_string()));
    assert_eq!(utf8_string(&[0xFF, 0x41]), None);
}

#[test]
fn head_flag_names() {
    assert_eq!(format_head_flags(0), "0x0000 (None)");
    assert_eq!(
        format_head_flags(0x0803),
        "0x0803 (Baseline at y=0, LSB at x=0, Lossless transformed font data)"
    );
    assert_eq!(format_head_flags(0x0020), "0x0020 (None)");
}

#[test]
fn mac_style_names_only_defined_bits() {
    assert_eq!(format_mac_style(0x0003), "0x0003 (Bold, Italic)");
    assert_eq!(format_mac_style(0x0100), "0x0000 (None)");
    assert_eq!(format_mac_style(0x0141), "0x0041 (Bold, Extended)");
}

#[test]
fn os2_flag_names() {
    assert_eq!(format_fs_type(0), "0x0000 (Installable Embedding)");
    assert_eq!(format_fs_type(0x0108), "0x0108 (Editable Embedding, No Subsetting)");
    assert_eq!(format_selection_flags(0x0040), "0x0040 (Regular)");
    assert_eq!(format_selection_flags(0x8000), "0x0000 (None)");
    assert_eq!(format_selection_flags(0x0021), "0x0021 (Italic, Bold)");
    assert_eq!(format_u32_hex(0xDEAD_BEEF), "0xDEADBEEF");
}

#[test]
fn glyph_flag_names() {
    assert_eq!(format_simple_flag(0), "0x00");
    assert_eq!(format_simple_flag(0x13), "0x13 (ON_CURVE, X_SHORT, X_SAME/POS)");
    assert_eq!(format_simple_flag(0x80), "0x80");
    assert_eq!(format_component_flag(0x0023), "0x0023 (ARGS_WORDS, ARGS_XY, MORE_COMPONENTS)");
    assert_eq!(format_component_flag(0x0010), "0x0010");
    assert_eq!(format_component_flag(0x1100), "0x1100 (INSTR, UNSCALED_OFFSET)");
}

#[test]
fn tuple_variation_text() {
    assert_eq!(format_tuple_variation_count(0x8003), "0x8003 (SHARED_POINT_NUMBERS, count: 3)");
    assert_eq!(format_tuple_variation_count(0x0005), "0x0005 (count: 5)");
    assert_eq!(format_tuple_index(0x8000), "0x8000 (EMBEDDED_PEAK_TUPLE)");
    assert_eq!(format_tuple_index(0x6002), "0x6002 (INTERMEDIATE_REGION, PRIVATE_POINT_NUMBERS, index: 2)");
    assert_eq!(format_tuple_index(0x0007), "0x0007 (index: 7)");
    assert_eq!(format_gvar_flags(0), "0x0000 (SHORT_OFFSETS)");
    assert_eq!(format_gvar_flags(1), "0x0001 (LONG_OFFSETS)");
}

#[test]
fn packed_point_and_delta_lengths() {
    assert_eq!(get_packed_point_numbers_len(&[]), 0);
    assert_eq!(get_packed_point_numbers_len(&[0, 9, 9]), 1);
    assert_eq!(get_packed_point_numbers_len(&[2, 0x01, 5, 6, 7]), 4);
    assert_eq!(get_packed_point_numbers_len(&[0x80, 0x02, 0x81, 0, 1, 0, 2, 9]), 7);
    assert_eq!(get_packed_point_numbers_len(&[0x80]), 1);
    assert_eq!(get_packed_point_numbers_len(&[3, 0x05, 1]), 3);
    assert_eq!(get_packed_deltas_len(&[0x81, 7, 7], 2), 1);
    assert_eq!(get_packed_deltas_len(&[0x41, 0, 1, 0, 2, 9], 2), 5);
    assert_eq!(get_packed_deltas_len(&[0x03, 1, 2], 4), 3);
    assert_eq!(get_packed_deltas_len(&[0x01, 1, 2], 0), 0);
}

#[test]
fn civil_dates() {
    assert_eq!(civil_from_days(0), (1970, 1, 1));
    assert_eq!(civil_from_days(-1), (1969, 12, 31));
    assert_eq!(civil_from_days(19723), (2024, 1, 1));
    assert_eq!(civil_from_days(-719468), (0, 3, 1));
}

#[test]
fn every_date_time_is_a_calendar_date() {
    let mut secs: i64 = -40_000_000_000;
    while secs < 40_000_000_000 {
        let p = long_date_time_parts(secs);
        assert!(1 <= p.month && p.month <= 12);
        assert!(1 <= p.day && p.day <= 31);
        assert!(0 <= p.hour && p.hour < 24);
        assert!(0 <= p.minute && p.minute < 60);
        assert!(0 <= p.second && p.second < 60);
        secs += 86_399 * 7 + 12_345;
    }
    // The last day of February in a leap year.
    assert_eq!(civil_from_days(19_782), (2024, 2, 29));
    assert_eq!(civil_from_days(19_783), (2024, 3, 1));
}

#[test]
fn every_day_fits_its_month() {
    let leap = |y: i64| y % 4 == 0 && (y % 100 != 0 || y % 400 == 0);
    let dim = |y: i64, m: u32| match m {
        2 => if leap(y) { 29 } else { 28 },
        4 | 6 | 9 | 11 => 30,
        _ => 31,
    };
    let mut d: i64 = -800_000;
    while d < 800_000 {
        let (y, m, day) = civil_from_days(d);
        assert!(day >= 1 && day <= dim(y, m), "day {} gives {}-{}-{}", d, y, m, day);
        let next = if day < dim(y, m) {
            (y, m, day + 1)
        } else if m < 12 {
            (y, m + 1, 1)
        } else {
            (y + 1, 1, 1)
        };
        assert_eq!(civil_from_days(d + 1), next, "day after {}", d);
        d += 37;
    }
    assert_eq!(civil_from_days(-719_469), (0, 2, 29));
    assert_eq!(civil_from_days(-719_468), (0, 3, 1));
    assert_eq!(civil_from_days(10_956), (1999, 12, 31));
    assert_eq!(civil_from_days(11_016), (2000, 2, 29));
    assert_eq!(civil_from_days(-25_508), (1900, 3, 1));
}

#[test]
fn long_date_times() {
    let p = long_date_time_parts(SECS_BETWEEN_1904_AND_1970);
    assert_eq!((p.year, p.month, p.day, p.hour, p.minute, p.second), (1970, 1, 1, 0, 0, 0));
    let q = long_date_time_parts(3661);
    assert_eq!(q.to_iso_string(), "1904-01-01T01:01:01Z");
    assert!(is_reasonable_long_date_time(&q));
    let r = long_date_time_parts(-1);
    assert_eq!(r.to_iso_string(), "1903-12-31T23:59:59Z");
    assert!(!is_reasonable_long_date_time(&r));
    let late = DateTimeParts { year: 2101, month: 1, day: 1, hour: 0, minute: 0, second: 0 };
    assert!(!is_reasonable_long_date_time(&late));
}

#[test]
fn long_date_time_text() {
    assert_eq!(format_raw_bytes(&[0xAB, 0x01]), "AB01");
    assert_eq!(format_long_date_time(&[0, 0, 0, 0, 0, 0, 0x0E, 0x10]), "1904-01-01T01:00:00Z");
    assert_eq!(
        format_long_date_time(&[0xFF; 8]),
        "2040-02-06T06:28:15Z (low 32 bits; raw 0xFFFFFFFFFFFFFFFF)"
    );
    assert_eq!(
        format_long_date_time(&[0x7F, 0xFF, 0xFF, 0xFF, 0, 0, 0x0E, 0x10]),
        "1904-01-01T01:00:00Z (low 32 bits; raw 0x7FFFFFFF00000E10)"
    );
}
