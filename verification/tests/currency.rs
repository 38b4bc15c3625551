use tfm2_editor::currency::{
    display_amount_parts, format_internal_amount, normalize_separators, normalize_single_separator, trim_decimal_zeros,
};

#[test]
fn known_tfm2_contract_values_match_game_display() {
    assert_eq!(format_internal_amount("480000000"), "$400K");
    assert_eq!(format_internal_amount("100000"), "$83.3");
}

#[test]
fn billion_display_matches_existing_set_all_value() {
    assert_eq!(format_internal_amount("1200000000000"), "$1B");
}

#[test]
fn blank_amount_formats_as_empty_text() {
    assert_eq!(format_internal_amount(""), "");
    assert_eq!(format_internal_amount("   "), "");
}

#[test]
fn unreadable_or_infinite_amount_is_returned_unchanged() {
    assert_eq!(format_internal_amount("abc"), "abc");
    assert_eq!(format_internal_amount(" 12x "), " 12x ");
    assert_eq!(format_internal_amount("inf"), "inf");
    assert_eq!(format_internal_amount("-Infinity"), "-Infinity");
    assert_eq!(format_internal_amount("NaN"), "NaN");
    assert_eq!(format_internal_amount("1e400"), "1e400");
    assert_eq!(format_internal_amount("1.2.3"), "1.2.3");
    assert_eq!(format_internal_amount("."), ".");
}

#[test]
fn amounts_pick_their_scale_suffix() {
    assert_eq!(format_internal_amount("1200"), "$1");
    assert_eq!(format_internal_amount("1200000"), "$1K");
    assert_eq!(format_internal_amount("1200000000"), "$1M");
    assert_eq!(format_internal_amount("1200000000000000"), "$1T");
    assert_eq!(format_internal_amount("120000000"), "$100K");
    assert_eq!(format_internal_amount("1.2e9"), "$1M");
}

#[test]
fn decimals_depend_on_the_size_of_the_number() {
    assert_eq!(format_internal_amount("1800"), "$1.5");
    assert_eq!(format_internal_amount("1260"), "$1.05");
    assert_eq!(format_internal_amount("12600"), "$10.5");
    assert_eq!(format_internal_amount("13200"), "$11");
    assert_eq!(format_internal_amount("600"), "$0.5");
    assert_eq!(format_internal_amount(" 480000000 "), "$400K");
}

#[test]
fn negative_amounts_keep_their_sign_unless_they_show_as_zero() {
    assert_eq!(format_internal_amount("-1200"), "$-1");
    assert_eq!(format_internal_amount("-480000000"), "$-400K");
    assert_eq!(format_internal_amount("-0"), "$0");
    assert_eq!(format_internal_amount("-0.001"), "$0");
    assert_eq!(format_internal_amount("1e-400"), "$0");
}

#[test]
fn trailing_decimal_zeros_are_trimmed() {
    assert_eq!(trim_decimal_zeros("1.50".to_string()), "1.5");
    assert_eq!(trim_decimal_zeros("2.00".to_string()), "2");
    assert_eq!(trim_decimal_zeros("100".to_string()), "100");
}

#[test]
fn separators_are_normalized() {
    assert_eq!(normalize_separators("1,200,000"), Ok("1200000".to_string()));
    assert_eq!(normalize_separators("83,3"), Ok("83.3".to_string()));
    assert_eq!(normalize_separators("1.234,5"), Ok("1234.5".to_string()));
    assert_eq!(normalize_separators("1,234.5"), Ok("1234.5".to_string()));
    assert_eq!(normalize_separators("1.200.000"), Ok("1200000".to_string()));
    assert_eq!(normalize_separators("12.5"), Ok("12.5".to_string()));
    assert_eq!(normalize_separators("1,2,3"), Err(()));
    assert_eq!(normalize_separators("  "), Err(()));
    assert_eq!(normalize_single_separator("1,", ','), Err(()));
    assert_eq!(normalize_single_separator("1,234", ','), Ok("1234".to_string()));
    assert_eq!(normalize_single_separator("1234,567", ','), Ok("1234.567".to_string()));
}

#[test]
fn typed_amounts_accept_grouping_and_decimal_separators() {
    assert_eq!(display_amount_parts("1,200,000"), Ok(("1200000".to_string(), 0)));
    assert_eq!(display_amount_parts("1 200 000"), Ok(("1200000".to_string(), 0)));
    assert_eq!(display_amount_parts("83,3"), Ok(("83.3".to_string(), 0)));
}

#[test]
fn typed_amounts_split_into_number_and_scale() {
    assert_eq!(display_amount_parts("$400K"), Ok(("400".to_string(), 1)));
    assert_eq!(display_amount_parts(" \u{20ac}1_200.5m "), Ok(("1200.5".to_string(), 2)));
    assert_eq!(display_amount_parts("2b"), Ok(("2".to_string(), 3)));
    assert_eq!(display_amount_parts("3T"), Ok(("3".to_string(), 4)));
    assert_eq!(display_amount_parts("1.234.567"), Ok(("1234567".to_string(), 0)));
    assert_eq!(display_amount_parts("1.234,5"), Ok(("1234.5".to_string(), 0)));
    assert_eq!(display_amount_parts("   "), Err(()));
    assert_eq!(display_amount_parts("$"), Err(()));
    assert_eq!(display_amount_parts("K"), Err(()));
    assert_eq!(display_amount_parts("1,,2"), Err(()));
}

/// The same display computed with `f64` arithmetic, as a reference.
fn with_doubles(raw: &str) -> String {
    let trimmed = raw.trim();
    if trimmed.is_empty() {
        return String::new();
    }
    let value = match trimmed.parse::<f64>() {
        Ok(value) if value.is_finite() => value / 1200.0,
        _ => return raw.to_string(),
    };
    let negative = value.is_sign_negative();
    let absolute = value.abs();
    let (scaled, suffix) = if absolute >= 1_000_000_000_000.0 {
        (absolute / 1_000_000_000_000.0, "T")
    } else if absolute >= 1_000_000_000.0 {
        (absolute / 1_000_000_000.0, "B")
    } else if absolute >= 1_000_000.0 {
        (absolute / 1_000_000.0, "M")
    } else if absolute >= 1_000.0 {
        (absolute / 1_000.0, "K")
    } else {
        (absolute, "")
    };
    let mut number = if scaled >= 100.0 || scaled.fract().abs() < 0.000_000_1 {
        format!("{scaled:.0}")
    } else if scaled >= 10.0 {
        trim_decimal_zeros(format!("{scaled:.1}"))
    } else {
        trim_decimal_zeros(format!("{scaled:.2}"))
    };
    if negative && number != "0" {
        number.insert(0, '-');
    }
    format!("${number}{suffix}")
}

#[test]
fn amounts_round_as_doubles_do() {
    assert_eq!(format_internal_amount("6"), "$0.01");
    assert_eq!(format_internal_amount("6"), with_doubles("6"));
    assert_eq!(format_internal_amount("150"), with_doubles("150"));
    assert_eq!(format_internal_amount("-6"), "$-0.01");
}

#[test]
fn amounts_match_double_arithmetic() {
    let mut inputs: Vec<String> = vec![
        "0", "-0", "1", "5", "6", "7", "18", "30", "54", "150", "594", "599", "600", "601", "6000",
        "11994", "11999", "12006", "119994", "119999", "1199400", "1199999", "1200000", "1234567",
        "99999999", "119999999999", "1199999999999", "1199999999999999", "1200000000000000",
        "123456789012345678901234567890", "0.1", "0.5", "1e-7", "1e-300", "1e-320", "4.9e-324",
        "2e-324", "1e300", "1.7976931348623157e308", "1.7976931348623158e308", "-1e308",
        "12345.678901234567890123", "0.000000000000000000000000000000000000012",
        "5.9999999999999999999", "100000", "100002", "100014", "100020", "480000000", "-480000000",
        "+1200", "1E3", "12e2", ".5", "5.", "00012", "9007199254740993", "18014398509481985",
    ]
    .into_iter()
    .map(|s| s.to_string())
    .collect();
    let mut x: u64 = 7;
    for _ in 0..40 {
        x = x.wrapping_mul(6364136223846793005).wrapping_add(1442695040888963407);
        let digits = (x >> 40) % 16 + 1;
        let mantissa = (x >> 8) % 10u64.pow(digits as u32);
        inputs.push(format!("{mantissa}"));
        inputs.push(format!("{}.{:03}", mantissa / 1000, mantissa % 1000));
        inputs.push(format!("{mantissa}e{}", (x % 40) as i64 - 20));
    }
    for raw in &inputs {
        assert_eq!(format_internal_amount(raw), with_doubles(raw), "amount {raw}");
    }
}
