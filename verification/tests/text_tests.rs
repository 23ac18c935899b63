use rtop::text::{core_label, decimal_string, format_mem, make_center_rule, pad, pad_left, trim_name};

fn float_mem(bytes: u64) -> String {
    let mib = bytes as f64 / 1024.0 / 1024.0;
    if mib < 1024.0 {
        format!("{mib:.0} MiB")
    } else {
        format!("{:.1} GiB", mib / 1024.0)
    }
}

#[test]
fn memory_sizes_match_float_formatting() {
    let mut cases: Vec<u64> = vec![
        0, 1, 524_287, 524_288, 524_289, 1_048_576, 1_572_864, 2_621_440, 3_670_016,
        1_073_741_823, 1_073_741_824, 1_127_428_915, 1_181_116_006, 1_234_803_097, 8_589_934_592,
        u64::MAX, u64::MAX - 1, 1 << 53, (1 << 53) + 1, (1 << 54) + 2, (1 << 54) + 6, 123_456_789_012_345,
    ];
    let mut x: u64 = 0x9E37_79B9_7F4A_7C15;
    for _ in 0..2000 {
        x ^= x << 13;
        x ^= x >> 7;
        x ^= x << 17;
        cases.push(x >> (x % 60));
    }
    for k in 0..64 {
        cases.push(1u64 << k);
        cases.push((1u64 << k).wrapping_mul(3) / 2);
    }
    for b in cases {
        assert_eq!(format_mem(b), float_mem(b), "{b}");
    }
}

#[test]
fn memory_size_examples() {
    assert_eq!(format_mem(0), "0 MiB");
    assert_eq!(format_mem(300 * 1024 * 1024), "300 MiB");
    assert_eq!(format_mem(3 * 1024 * 1024 * 1024 / 2), "1.5 GiB");
}

#[test]
fn decimals() {
    assert_eq!(decimal_string(0), "0");
    assert_eq!(decimal_string(42), "42");
    assert_eq!(decimal_string(u64::MAX), u64::MAX.to_string());
    assert_eq!(core_label(3), "03");
    assert_eq!(core_label(12), "12");
    assert_eq!(core_label(123), "123");
}

#[test]
fn names_are_cut_by_characters() {
    assert_eq!(trim_name("firefox", 4), "fire");
    assert_eq!(trim_name("ab", 4), "ab");
    assert_eq!(trim_name("ab", 0), "");
    assert_eq!(trim_name("éèê", 2), "éè");
}

#[test]
fn padding_matches_format() {
    for (text, width) in [("PID", 6), ("Name", 4), ("abc", 2), ("", 3), ("x", 0), ("é", 3), ("RAM", 9)] {
        let left = if text.len() >= width { text[..width].to_string() } else { format!("{text:<width$}") };
        assert_eq!(pad(text, width), left);
        let right = if text.len() >= width { text[text.len() - width..].to_string() } else { format!("{text:>width$}") };
        assert_eq!(pad_left(text, width), right);
    }
}

fn direct_rule(width: usize, label: &str) -> String {
    if width == 0 {
        return String::new();
    }
    let label = if label.len() + 2 > width { &label[..width.saturating_sub(2)] } else { label };
    let side = width.saturating_sub(label.len()) / 2;
    let mut out = String::with_capacity(width);
    out.push_str(&"─".repeat(side));
    out.push_str(label);
    out.push_str(&"─".repeat(width.saturating_sub(side + label.len())));
    out
}

#[test]
fn center_rule_matches_direct_formatting() {
    for width in 0..40 {
        for label in [" 48°C  12.5% ", " N/A  0.0% ", "", "ab"] {
            if width >= 2 && label.len() + 2 > width && !label.is_char_boundary(width - 2) {
                continue;
            }
            if width == 1 && !label.is_char_boundary(0) {
                continue;
            }
            assert_eq!(make_center_rule(width, label), direct_rule(width, label), "{width} {label:?}");
        }
    }
    assert_eq!(make_center_rule(8, "ab"), "───ab───");
}

#[test]
fn padded_texts_fill_their_column() {
    for width in 0..12 {
        for text in ["", "PID", "12 MiB", "firefox-bin"] {
            assert_eq!(pad(text, width).chars().count(), width);
            assert_eq!(pad_left(text, width).chars().count(), width);
        }
    }
}

#[test]
fn center_rule_fills_its_width() {
    for width in 0..30 {
        assert_eq!(make_center_rule(width, " 45C  12.0% ").chars().count(), width);
    }
}
