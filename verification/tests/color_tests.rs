use mediachat_native::{color_cuts_fit, parse_color, Rgb};

fn rgb(r: u8, g: u8, b: u8) -> Option<Rgb> {
    Some(Rgb { r, g, b })
}

#[test]
fn parse_color_reads_long_form() {
    assert_eq!(parse_color(Some("#ff8000")), rgb(255, 128, 0));
    assert_eq!(parse_color(Some("#A1b2C3")), rgb(0xa1, 0xb2, 0xc3));
}

#[test]
fn parse_color_reads_short_form_times_17() {
    assert_eq!(parse_color(Some("#abc")), rgb(0xaa, 0xbb, 0xcc));
    assert_eq!(parse_color(Some("#f00")), rgb(255, 0, 0));
}

#[test]
fn parse_color_short_equals_doubled_long() {
    for s in ["#123", "#fed", "#0aF"] {
        let b = s.as_bytes();
        let long = format!(
            "#{}{}{}{}{}{}",
            b[1] as char, b[1] as char, b[2] as char, b[2] as char, b[3] as char, b[3] as char
        );
        assert_eq!(parse_color(Some(s)), parse_color(Some(long.as_str())));
        assert!(parse_color(Some(s)).is_some());
    }
}

#[test]
fn parse_color_hash_is_optional() {
    assert_eq!(parse_color(Some("00ff00")), rgb(0, 255, 0));
    assert_eq!(parse_color(Some("##fff")), rgb(255, 255, 255));
    assert_eq!(parse_color(Some("0f0")), parse_color(Some("#0f0")));
}

#[test]
fn parse_color_rejects_other_lengths_and_digits() {
    assert_eq!(parse_color(None), None);
    assert_eq!(parse_color(Some("")), None);
    assert_eq!(parse_color(Some("#")), None);
    assert_eq!(parse_color(Some("#ffff")), None);
    assert_eq!(parse_color(Some("#fffffff")), None);
    assert_eq!(parse_color(Some("#gg0000")), None);
    assert_eq!(parse_color(Some("#-1-1-1")), None);
    assert_eq!(parse_color(Some(" #fff")), None);
}

#[test]
fn parse_color_rejects_signs() {
    assert_eq!(parse_color(Some("#+f+f+f")), None);
    assert_eq!(parse_color(Some("#+ff")), None);
    assert_eq!(parse_color(Some("+f0000")), None);
}

#[test]
fn color_cuts_fit_detects_split_characters() {
    assert!(color_cuts_fit("#ff0000"));
    assert!(color_cuts_fit("hello"));
    assert!(color_cuts_fit("é1234"));
    assert!(!color_cuts_fit("€abc"));
    assert!(!color_cuts_fit("#aé"));
    assert_eq!(parse_color(Some("é1234")), None);
}
