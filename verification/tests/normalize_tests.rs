use hwisak_rs::cpu::amd::{parse_form_factors, FormFactor, Graphics, ProductID};
use hwisak_rs::normalize::split_quoted;
use hwisak_rs::text::{chars_to_string, dec_chars, to_chars, trim_chars};
use hwisak_rs::normalize::{parse_freq_mhz, parse_uint_noisy, parse_yes_no, parse_available};

#[test]
fn freq_up_to_ghz_converts_to_mhz() {
    assert_eq!(parse_freq_mhz(&to_chars("Up to 4.50 GHz")), Some(4500));
}

#[test]
fn freq_plain_mhz_is_kept() {
    assert_eq!(parse_freq_mhz(&to_chars("3700 MHz")), Some(3700));
}

#[test]
fn freq_blank_is_absent() {
    assert_eq!(parse_freq_mhz(&to_chars("")), None);
}

#[test]
fn freq_ghz_without_fraction_digits() {
    assert_eq!(parse_freq_mhz(&to_chars("5.0 GHz")), Some(5000));
    assert_eq!(parse_freq_mhz(&to_chars("3.8 GHz")), Some(3800));
}

#[test]
fn freq_garbage_is_absent() {
    assert_eq!(parse_freq_mhz(&to_chars("fast")), None);
    assert_eq!(parse_freq_mhz(&to_chars("1.2.3")), None);
}

#[test]
fn uint_strips_noise() {
    assert_eq!(parse_uint_noisy(&to_chars("95 C")), Some(95));
    assert_eq!(parse_uint_noisy(&to_chars("14 nm")), Some(14));
    assert_eq!(parse_uint_noisy(&to_chars("abc")), None);
    assert_eq!(parse_uint_noisy(&to_chars("")), None);
}

#[test]
fn uint_too_long_is_absent() {
    assert_eq!(parse_uint_noisy(&to_chars("12345678901")), None);
    assert_eq!(parse_uint_noisy(&to_chars("999999999")), Some(999_999_999));
}

#[test]
fn yes_no_vocabulary() {
    assert_eq!(parse_yes_no(&to_chars("Yes")), Some(true));
    assert_eq!(parse_yes_no(&to_chars("no")), Some(false));
    assert_eq!(parse_yes_no(&to_chars("")), None);
    assert_eq!(parse_yes_no(&to_chars("maybe")), None);
}

#[test]
fn available_vocabulary() {
    assert_eq!(parse_available(&to_chars("Available")), Some(true));
    assert_eq!(parse_available(&to_chars("")), None);
    assert_eq!(parse_available(&to_chars("No AI")), Some(false));
}

#[test]
fn split_quoted_list() {
    let r = split_quoted("\"Win10, Win11\"");
    assert_eq!(r, vec!["Win10".to_string(), "Win11".to_string()]);
}

#[test]
fn split_quoted_single_element() {
    let r = split_quoted("plain text");
    assert_eq!(r, vec!["plain text".to_string()]);
}

#[test]
fn split_quoted_blank_is_empty_list() {
    let r = split_quoted("   ");
    assert!(r.is_empty());
}

#[test]
fn split_quoted_drops_empty_elements() {
    let r = split_quoted("a, ,b,");
    assert_eq!(r, vec!["a".to_string(), "b".to_string()]);
}

#[test]
fn form_factors_known_and_unknown() {
    let r = parse_form_factors("Desktops, Laptops, Spaceships");
    assert_eq!(r, vec![FormFactor::Desktops, FormFactor::Laptops]);
}

#[test]
fn form_factor_vocabulary_variants() {
    assert_eq!(
        parse_form_factors("1L Desktop,1L Desktops"),
        vec![FormFactor::TinyDesktops, FormFactor::TinyDesktops]
    );
}

#[test]
fn product_id_blank_is_absent() {
    let p = ProductID::new("100-1", "", "  ");
    assert_eq!(p.boxed, Some("100-1".to_string()));
    assert_eq!(p.tray, None);
    assert_eq!(p.mpk, None);
}

#[test]
fn graphics_new_normalizes() {
    let g = Graphics::new(" Radeon 760M ", "8", "2800 MHz");
    assert_eq!(g.model, "Radeon 760M");
    assert_eq!(g.cores, 8);
    assert_eq!(g.frequency, 2800);
}

#[test]
fn trim_and_decimal_helpers() {
    assert_eq!(chars_to_string(&trim_chars(&to_chars("  abc\t"))), "abc");
    assert_eq!(chars_to_string(&dec_chars(407)), "407");
    assert_eq!(chars_to_string(&dec_chars(0)), "0");
}
