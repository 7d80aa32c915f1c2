use pyapp::splash::config::{Color, SplashConfig};

#[test]
fn test_parse_hex_color_with_hash() {
    let color = Color::from_hex("#1a1a2e");
    assert_eq!(color.r, 0x1a);
    assert_eq!(color.g, 0x1a);
    assert_eq!(color.b, 0x2e);
}

#[test]
fn test_parse_hex_color_without_hash() {
    let color = Color::from_hex("ffffff");
    assert_eq!(color.r, 255);
    assert_eq!(color.g, 255);
    assert_eq!(color.b, 255);
}

#[test]
fn test_parse_hex_color_black() {
    let color = Color::from_hex("#000000");
    assert_eq!(color.r, 0);
    assert_eq!(color.g, 0);
    assert_eq!(color.b, 0);
}

#[test]
fn test_to_egui() {
    let color = Color::from_hex("#4a90d9");
    assert_eq!(color.to_egui(), [0x4a, 0x90, 0xd9]);
}

#[test]
fn hex_digits_of_either_case() {
    let upper = Color::from_hex("#ABCDEF");
    let lower = Color::from_hex("abcdef");
    assert_eq!(upper.to_egui(), [0xab, 0xcd, 0xef]);
    assert_eq!(lower.to_egui(), [0xab, 0xcd, 0xef]);
}

#[test]
fn pair_that_does_not_parse_is_zero() {
    let color = Color::from_hex("zz1122");
    assert_eq!(color.to_egui(), [0, 0x11, 0x22]);
    let color = Color::from_hex("#-11122");
    assert_eq!(color.to_egui(), [0, 0x11, 0x22]);
}

#[test]
fn pair_with_plus_sign_reads_one_digit() {
    let color = Color::from_hex("+f+a++");
    assert_eq!(color.to_egui(), [0x0f, 0x0a, 0]);
}

#[test]
fn only_one_hash_is_stripped() {
    let color = Color::from_hex("##aabbcc");
    assert_eq!(color.to_egui(), [0, 0xab, 0xbc]);
}

#[test]
fn digits_after_the_sixth_are_ignored() {
    let color = Color::from_hex("#102030ffff");
    assert_eq!(color.to_egui(), [0x10, 0x20, 0x30]);
}

#[test]
fn two_byte_characters_read_as_zero() {
    // Each "é" fills one two-byte pair exactly.
    let color = Color::from_hex("éé40");
    assert_eq!(color.to_egui(), [0, 0, 0x40]);
}

#[test]
fn every_colour_round_trips_through_hex() {
    for r in [0u8, 1, 0x7f, 0x80, 0xfe, 0xff] {
        for g in [0u8, 0x0a, 0xa0, 0xff] {
            for b in [0u8, 0x42, 0xff] {
                let text = format!("{:02x}{:02x}{:02x}", r, g, b);
                let with_hash = format!("#{}", text);
                assert_eq!(Color::from_hex(&text).to_egui(), [r, g, b]);
                assert_eq!(Color::from_hex(&with_hash).to_egui(), [r, g, b]);
            }
        }
    }
}

fn config_with(width: &str, height: &str) -> SplashConfig {
    SplashConfig::from_env(
        "#1a1a2e", "#ffffff", "#4a90d9", "My App", width, height, "myapp", "1.0.0",
    )
}

#[test]
fn config_takes_every_value() {
    let config = config_with("640", "400");
    assert_eq!(config.bg_color.to_egui(), [0x1a, 0x1a, 0x2e]);
    assert_eq!(config.text_color.to_egui(), [0xff, 0xff, 0xff]);
    assert_eq!(config.progress_color.to_egui(), [0x4a, 0x90, 0xd9]);
    assert_eq!(config.window_title, "My App");
    assert_eq!(config.window_width, 640);
    assert_eq!(config.window_height, 400);
    assert_eq!(config.project_name, "myapp");
    assert_eq!(config.project_version, "1.0.0");
}

#[test]
fn config_defaults_for_sizes_that_do_not_parse() {
    for bad in ["", "+", "-", "-1", "12a", " 12", "4294967296", "99999999999999999999", "1.5"] {
        let config = config_with(bad, bad);
        assert_eq!(config.window_width, 480);
        assert_eq!(config.window_height, 360);
    }
}

#[test]
fn config_reads_sizes_as_parse_does() {
    for good in ["0", "7", "+800", "000480", "4294967295", "+0004294967295"] {
        let config = config_with(good, good);
        let expected: u32 = good.parse().unwrap();
        assert_eq!(config.window_width, expected);
        assert_eq!(config.window_height, expected);
    }
}

#[test]
fn every_size_round_trips_through_decimal() {
    for n in [0u32, 9, 10, 99, 100, 480, 65535, 1_000_000, u32::MAX - 1, u32::MAX] {
        let text = n.to_string();
        let config = config_with(&text, &text);
        assert_eq!(config.window_width, n);
        assert_eq!(config.window_height, n);
    }
}
