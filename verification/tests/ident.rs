use acs_scraper::chars::chars_of;
use acs_scraper::ident::{
    format_number, identifier_from_group, identifier_in, identifier_number, number_from_group,
    parse_number,
};

#[test]
fn format_number_pads_small_numbers_to_three_digits() {
    assert_eq!(format_number(0), "SCP-000");
    assert_eq!(format_number(1), "SCP-001");
    assert_eq!(format_number(7), "SCP-007");
    assert_eq!(format_number(42), "SCP-042");
    assert_eq!(format_number(99), "SCP-099");
}

#[test]
fn format_number_leaves_larger_numbers_unpadded() {
    assert_eq!(format_number(100), "SCP-100");
    assert_eq!(format_number(173), "SCP-173");
    assert_eq!(format_number(1000), "SCP-1000");
    assert_eq!(format_number(7999), "SCP-7999");
    assert_eq!(format_number(10000), "SCP-10000");
    assert_eq!(format_number(10203), "SCP-10203");
    assert_eq!(format_number(65535), "SCP-65535");
}

#[test]
fn parse_number_reads_digit_strings() {
    assert_eq!(parse_number(&chars_of("0")), Some(0));
    assert_eq!(parse_number(&chars_of("007")), Some(7));
    assert_eq!(parse_number(&chars_of("173")), Some(173));
    assert_eq!(parse_number(&chars_of("65535")), Some(65535));
    assert_eq!(parse_number(&chars_of("0000065535")), Some(65535));
}

#[test]
fn parse_number_rejects_what_is_no_number() {
    assert_eq!(parse_number(&chars_of("")), None);
    assert_eq!(parse_number(&chars_of("65536")), None);
    assert_eq!(parse_number(&chars_of("99999999999999999999")), None);
    assert_eq!(parse_number(&chars_of("12a")), None);
    assert_eq!(parse_number(&chars_of("-1")), None);
    assert_eq!(parse_number(&chars_of("٣")), None);
}

#[test]
fn number_from_group_follows_the_group() {
    assert_eq!(number_from_group(Some("049".to_string())), Some(49));
    assert_eq!(number_from_group(Some("x".to_string())), None);
    assert_eq!(number_from_group(None), None);
    assert_eq!(identifier_from_group(Some("049".to_string())), "SCP-049");
    assert_eq!(identifier_from_group(Some("1730".to_string())), "SCP-1730");
    assert_eq!(identifier_from_group(None), "");
}

#[test]
fn identifier_number_takes_the_first_group() {
    let anchored = r"(?i)\bscp-([0-9]{1,4})$";
    assert_eq!(identifier_number("/scp-173", anchored), Some(173));
    assert_eq!(identifier_number("/SCP-049", anchored), Some(49));
    assert_eq!(identifier_number("/scp-173-j", anchored), None);
    assert_eq!(identifier_number("/scp-12345", anchored), None);
    assert_eq!(identifier_number("/taboo", anchored), None);
    let anywhere = r"(?i)SCP-(\d{3,4})";
    assert_eq!(identifier_number("see scp-2521 for more", anywhere), Some(2521));
    assert_eq!(identifier_number("scp-12", anywhere), None);
    assert_eq!(identifier_number("anything", "(unclosed"), None);
}

#[test]
fn identifier_in_formats_what_it_finds() {
    assert_eq!(identifier_in("/scp-049", r"(?i)SCP-(\d{3,4})"), "SCP-049");
    assert_eq!(identifier_in("/scp-3000", r"(?i)SCP-(\d{3,4})"), "SCP-3000");
    assert_eq!(identifier_in("/decomm-231", r"-(\d{3,4})"), "SCP-231");
    assert_eq!(identifier_in("/about", r"-(\d{3,4})"), "");
}
