use fda_calendar_scraper::currency::USDParseError;
use fda_calendar_scraper::currency::USD;

#[test]
fn simple_parse() {
    let actual = USD::new("$1.01").unwrap();
    assert_eq!(actual.cents, 101);
    assert_eq!(actual.is_positive(), true);
}

#[test]
fn simple_negative_parse() {
    let actual = USD::new("-$1.01").unwrap();
    assert_eq!(actual.cents, 101);
    assert_eq!(actual.is_positive(), false);
}

#[test]
fn no_dollar_sign() {
    assert_eq!(USD::new("1.01").err().unwrap(), USDParseError::NoDollarSign("1.01".to_string()));
}

#[test]
fn negative_no_dollar_sign() {
    assert_eq!(USD::new("-1.01").err().unwrap(), USDParseError::NoDollarSign("-1.01".to_string()));
}

#[test]
fn non_dollar_sign() {
    assert_eq!(USD::new("%1.01").err().unwrap(), USDParseError::NoDollarSign("%1.01".to_string()));
}

#[test]
fn no_decimal() {
    let actual = USD::new("$101").unwrap();
    assert_eq!(actual.cents, 10100);
    assert_eq!(actual.is_positive(), true);
}

#[test]
fn no_decimal_negative() {
    let actual = USD::new("-$101").unwrap();
    assert_eq!(actual.cents, 10100);
    assert_eq!(actual.is_positive(), false);
}

#[test]
fn no_dollars() {
    let actual = USD::new("$.05").unwrap();
    assert_eq!(actual.cents, 5);
    assert_eq!(actual.is_positive(), true);
}

#[test]
fn no_dollars_negative() {
    let actual = USD::new("-$.05").unwrap();
    assert_eq!(actual.cents, 5);
    assert_eq!(actual.is_positive(), false);
}

#[test]
fn decimal_no_cents() {
    assert_eq!(
        USD::new("$1.").err().unwrap(),
        USDParseError::DecimalWithInsufficientCents("$1.".to_string())
    );
}

#[test]
fn string_loop() {
    let original = USD::new("-$.05").unwrap();
    let intermediary_string = original.to_string();
    assert_eq!(intermediary_string, "-$0.05".to_string());
    assert_eq!(USD::new(&intermediary_string).unwrap(), original);
}

#[test]
fn non_numeric_dollars() {
    assert_eq!(USD::new("$A.44").err().unwrap(), USDParseError::InvalidStructure("$A.44".to_string()));
}

#[test]
fn non_numeric_dollars_negative() {
    assert_eq!(
        USD::new("-$A.44").err().unwrap(),
        USDParseError::InvalidStructure("-$A.44".to_string())
    );
}

#[test]
fn non_numeric_cents() {
    assert_eq!(USD::new("$4.AA").err().unwrap(), USDParseError::InvalidStructure("$4.AA".to_string()));
}

#[test]
fn non_numeric_cents_negative() {
    assert_eq!(
        USD::new("-$4.AA").err().unwrap(),
        USDParseError::InvalidStructure("-$4.AA".to_string())
    );
}

#[test]
fn insufficient_cents() {
    assert_eq!(
        USD::new("$1.0").err().unwrap(),
        USDParseError::DecimalWithInsufficientCents("$1.0".to_string())
    );
}

#[test]
fn insufficient_cents_negative() {
    assert_eq!(
        USD::new("-$1.0").err().unwrap(),
        USDParseError::DecimalWithInsufficientCents("-$1.0".to_string())
    );
}

#[test]
fn invalid_structure() {
    assert_eq!(
        USD::new("$1.00.33").err().unwrap(),
        USDParseError::InvalidStructure("$1.00.33".to_string())
    );
}

#[test]
fn comparison() {
    let negative = USD::new("-$.05").unwrap();
    let zero = USD::new("$0").unwrap();
    let positive = USD::new("$1").unwrap();

    assert!(negative < zero);
    assert!(zero < positive);
    assert!(negative < positive)
}

fn invalid(text: &str) -> USDParseError {
    USDParseError::InvalidStructure(text.to_string())
}

fn short_cents(text: &str) -> USDParseError {
    USDParseError::DecimalWithInsufficientCents(text.to_string())
}

fn no_sign(text: &str) -> USDParseError {
    USDParseError::NoDollarSign(text.to_string())
}

#[test]
fn magnitude_is_dollars_times_hundred_plus_cents() {
    assert_eq!(USD::new("$173.16").unwrap(), USD { is_negative: false, cents: 17316 });
    assert_eq!(USD::new("$6.00").unwrap(), USD { is_negative: false, cents: 600 });
    assert_eq!(USD::new("$0.99").unwrap(), USD { is_negative: false, cents: 99 });
    assert_eq!(USD::new("-$12.30").unwrap(), USD { is_negative: true, cents: 1230 });
    assert_eq!(USD::new("$0").unwrap(), USD { is_negative: false, cents: 0 });
}

#[test]
fn leading_zeros_do_not_change_the_amount() {
    assert_eq!(USD::new("$007.05").unwrap(), USD { is_negative: false, cents: 705 });
    assert_eq!(
        USD::new("$0000000000000000000000000000001").unwrap(),
        USD { is_negative: false, cents: 100 }
    );
}

#[test]
fn negative_zero_and_zero_are_distinct() {
    let negative_zero = USD::new("-$0").unwrap();
    let zero = USD::new("$0.00").unwrap();
    assert_eq!(negative_zero, USD { is_negative: true, cents: 0 });
    assert_eq!(zero, USD { is_negative: false, cents: 0 });
    assert_ne!(negative_zero, zero);
    assert!(negative_zero < zero);
}

#[test]
fn empty_and_sign_only_texts_lack_the_dollar_sign() {
    assert_eq!(USD::new("").err().unwrap(), no_sign(""));
    assert_eq!(USD::new("-").err().unwrap(), no_sign("-"));
    assert_eq!(USD::new(" $1").err().unwrap(), no_sign(" $1"));
    assert_eq!(USD::new("--$1").err().unwrap(), no_sign("--$1"));
    assert_eq!(USD::new("+$1").err().unwrap(), no_sign("+$1"));
}

#[test]
fn nothing_after_the_dollar_sign_is_invalid_structure() {
    assert_eq!(USD::new("$").err().unwrap(), invalid("$"));
    assert_eq!(USD::new("-$").err().unwrap(), invalid("-$"));
}

#[test]
fn a_lone_dot_has_no_cents() {
    assert_eq!(USD::new("$.").err().unwrap(), short_cents("$."));
    assert_eq!(USD::new("$.5").err().unwrap(), short_cents("$.5"));
    assert_eq!(USD::new("$1.005").err().unwrap(), short_cents("$1.005"));
}

#[test]
fn more_than_one_dot_is_invalid_structure_whatever_the_cents() {
    assert_eq!(USD::new("$1.0.33").err().unwrap(), invalid("$1.0.33"));
    assert_eq!(USD::new("$1..").err().unwrap(), invalid("$1.."));
    assert_eq!(USD::new("$..").err().unwrap(), invalid("$.."));
}

#[test]
fn non_numeric_dollars_come_before_short_cents() {
    assert_eq!(USD::new("$A.4").err().unwrap(), invalid("$A.4"));
}

#[test]
fn signs_and_spaces_inside_are_not_digits() {
    assert_eq!(USD::new("$+5").err().unwrap(), invalid("$+5"));
    assert_eq!(USD::new("$1.+5").err().unwrap(), invalid("$1.+5"));
    assert_eq!(USD::new("$-5").err().unwrap(), invalid("$-5"));
    assert_eq!(USD::new("$1 ").err().unwrap(), invalid("$1 "));
    assert_eq!(USD::new("$1.0 ").err().unwrap(), invalid("$1.0 "));
    assert_eq!(USD::new("$1.00 ").err().unwrap(), short_cents("$1.00 "));
    assert_eq!(USD::new("$1,000").err().unwrap(), invalid("$1,000"));
    assert_eq!(USD::new("$\u{0661}").err().unwrap(), invalid("$\u{0661}"));
}

#[test]
fn the_largest_amount_is_u64_max_cents() {
    assert_eq!(
        USD::new("$184467440737095516.15").unwrap(),
        USD { is_negative: false, cents: u64::MAX }
    );
    assert_eq!(
        USD::new("$184467440737095516").unwrap(),
        USD { is_negative: false, cents: 18446744073709551600 }
    );
}

#[test]
fn amounts_beyond_64_bits_of_cents_are_invalid_structure() {
    assert_eq!(
        USD::new("$184467440737095516.16").err().unwrap(),
        invalid("$184467440737095516.16")
    );
    assert_eq!(USD::new("$184467440737095517").err().unwrap(), invalid("$184467440737095517"));
    assert_eq!(
        USD::new("$99999999999999999999999").err().unwrap(),
        invalid("$99999999999999999999999")
    );
    assert_eq!(
        USD::new("-$18446744073709551616").err().unwrap(),
        invalid("-$18446744073709551616")
    );
}

#[test]
fn canonical_text_has_two_cent_digits_and_no_leading_zeros() {
    assert_eq!(USD { is_negative: false, cents: 0 }.to_string(), "$0.00");
    assert_eq!(USD { is_negative: true, cents: 0 }.to_string(), "-$0.00");
    assert_eq!(USD { is_negative: false, cents: 5 }.to_string(), "$0.05");
    assert_eq!(USD { is_negative: false, cents: 10100 }.to_string(), "$101.00");
    assert_eq!(USD { is_negative: true, cents: 17316 }.to_string(), "-$173.16");
    assert_eq!(USD { is_negative: false, cents: u64::MAX }.to_string(), "$184467440737095516.15");
    assert_eq!(USD::new("$007.50").unwrap().to_string(), "$7.50");
}

#[test]
fn canonical_text_parses_back_to_the_same_amount() {
    let texts = ["$1.01", "-$1.01", "$.05", "-$.05", "$101", "$0", "-$0", "$184467440737095516.15", "$0012.30"];
    for text in texts {
        let amount = USD::new(text).unwrap();
        assert_eq!(USD::new(&amount.to_string()).unwrap(), amount);
    }
    let mut cents: u64 = 0;
    while cents < 25_000 {
        for is_negative in [false, true] {
            let amount = USD { is_negative, cents };
            assert_eq!(USD::new(&amount.to_string()).unwrap(), amount);
        }
        cents += 7;
    }
}

#[test]
fn two_negative_amounts_order_by_reversed_magnitude() {
    let minus_two = USD::new("-$2").unwrap();
    let minus_one = USD::new("-$1").unwrap();
    assert!(minus_two < minus_one);
    assert!(!(minus_one < minus_two));
    assert!(minus_one > minus_two);
    assert!(minus_two <= minus_two);
    assert!(minus_two >= minus_two);
}

#[test]
fn exactly_one_of_before_equal_after_holds() {
    let amounts = [
        USD { is_negative: true, cents: u64::MAX },
        USD { is_negative: true, cents: 5 },
        USD { is_negative: true, cents: 0 },
        USD { is_negative: false, cents: 0 },
        USD { is_negative: false, cents: 5 },
        USD { is_negative: false, cents: u64::MAX },
    ];
    for (i, a) in amounts.iter().enumerate() {
        for (j, b) in amounts.iter().enumerate() {
            assert_eq!(a < b, i < j);
            assert_eq!(a == b, i == j);
            assert_eq!(a > b, i > j);
            assert_eq!(a <= b, i <= j);
        }
    }
}

#[test]
fn refusals_describe_themselves() {
    assert_eq!(USD::new("1.01").err().unwrap().to_string(), "No dollar sign 1.01");
    assert_eq!(USD::new("$1.0").err().unwrap().to_string(), "Not enough decimal places $1.0");
    assert_eq!(USD::new("$A.44").err().unwrap().to_string(), "Invalid structure $A.44");
}

#[test]
fn short_cents_are_refused_before_the_amount_is_weighed() {
    assert_eq!(
        USD::new("$184467440737095517.5").err().unwrap(),
        short_cents("$184467440737095517.5")
    );
    assert_eq!(
        USD::new("$184467440737095517.").err().unwrap(),
        short_cents("$184467440737095517.")
    );
    assert_eq!(
        USD::new("-$18446744073709551615.123").err().unwrap(),
        short_cents("-$18446744073709551615.123")
    );
}

#[test]
fn an_amount_too_large_with_well_formed_cents_is_invalid_structure() {
    assert_eq!(
        USD::new("$184467440737095517.50").err().unwrap(),
        invalid("$184467440737095517.50")
    );
    assert_eq!(
        USD::new("$18446744073709551615.00").err().unwrap(),
        invalid("$18446744073709551615.00")
    );
}

#[test]
fn non_numeric_cents_are_refused_before_the_amount_is_weighed() {
    assert_eq!(
        USD::new("$184467440737095517.AA").err().unwrap(),
        invalid("$184467440737095517.AA")
    );
}

#[test]
fn dollars_beyond_64_bits_are_refused_before_the_cents_are_read() {
    assert_eq!(
        USD::new("$18446744073709551616.5").err().unwrap(),
        invalid("$18446744073709551616.5")
    );
    assert_eq!(
        USD::new("$99999999999999999999999.").err().unwrap(),
        invalid("$99999999999999999999999.")
    );
}
