use checkout_customization::config::PaymentConfiguration;
use checkout_customization::decimal::{dec_lt, parse_decimal, Decimal};
use checkout_customization::model::{Error, Operation, PaymentMethod};
use checkout_customization::payment::{payment_function, run_payment};

fn method(id: &str, name: &str) -> PaymentMethod {
    PaymentMethod { id: id.to_string(), name: name.to_string() }
}

fn methods() -> Vec<PaymentMethod> {
    vec![method("gid://1", "Cash on Delivery"), method("gid://2", "Card")]
}

const CASH_CONFIG: &str = "{\"paymentMethodName\":\"Cash\",\"cartTotal\":100.0}";

#[test]
fn payment_below_threshold_is_empty() {
    let r = payment_function(Some(CASH_CONFIG), "50.00", &methods()).unwrap();
    assert_eq!(r.operations, vec![]);
}

#[test]
fn payment_match_hides_first_matching_method() {
    let r = payment_function(Some(CASH_CONFIG), "150.00", &methods()).unwrap();
    assert_eq!(
        r.operations,
        vec![Operation::Hide { payment_method_id: "gid://1".to_string() }]
    );
}

#[test]
fn payment_no_match_is_empty() {
    let config = "{\"paymentMethodName\":\"Bitcoin\",\"cartTotal\":100.0}";
    let r = payment_function(Some(config), "150.00", &methods()).unwrap();
    assert_eq!(r.operations, vec![]);
}

#[test]
fn payment_exactly_at_threshold_applies() {
    let r = payment_function(Some(CASH_CONFIG), "100.00", &methods()).unwrap();
    assert_eq!(r.operations.len(), 1);
}

#[test]
fn payment_hides_only_the_first_of_several_matches() {
    let many = vec![
        method("gid://1", "Card"),
        method("gid://2", "Cash on Delivery"),
        method("gid://3", "Cash"),
    ];
    let r = payment_function(Some(CASH_CONFIG), "150.00", &many).unwrap();
    assert_eq!(
        r.operations,
        vec![Operation::Hide { payment_method_id: "gid://2".to_string() }]
    );
}

#[test]
fn payment_substring_match_is_case_sensitive() {
    let config = "{\"paymentMethodName\":\"cash\",\"cartTotal\":100.0}";
    let r = payment_function(Some(config), "150.00", &methods()).unwrap();
    assert_eq!(r.operations, vec![]);
}

#[test]
fn payment_absent_configuration_is_empty() {
    let r = payment_function(None, "150.00", &methods()).unwrap();
    assert_eq!(r.operations, vec![]);
}

#[test]
fn payment_malformed_configuration_fails() {
    assert_eq!(
        payment_function(Some("{}"), "150.00", &methods()),
        Err(Error::ConfigurationMalformed)
    );
    assert_eq!(
        payment_function(Some("{\"paymentMethodName\":\"Cash\"}"), "150.00", &methods()),
        Err(Error::ConfigurationMalformed)
    );
    assert_eq!(
        payment_function(
            Some("{\"paymentMethodName\":\"Cash\",\"cartTotal\":\"100\"}"),
            "150.00",
            &methods()
        ),
        Err(Error::ConfigurationMalformed)
    );
}

#[test]
fn payment_unparsable_cart_total_fails() {
    assert_eq!(
        payment_function(Some(CASH_CONFIG), "abc", &methods()),
        Err(Error::UnparsableNumericField)
    );
    assert_eq!(
        payment_function(Some(CASH_CONFIG), "", &methods()),
        Err(Error::UnparsableNumericField)
    );
}

#[test]
fn payment_config_parse_failure_precedes_total_parse_failure() {
    assert_eq!(
        payment_function(Some("not json"), "abc", &methods()),
        Err(Error::ConfigurationMalformed)
    );
}

#[test]
fn payment_integer_threshold_configuration_is_accepted() {
    let config = "{\"paymentMethodName\":\"Cash\",\"cartTotal\":100}";
    let r = payment_function(Some(config), "99.99", &methods()).unwrap();
    assert_eq!(r.operations, vec![]);
    let r = payment_function(Some(config), "100.01", &methods()).unwrap();
    assert_eq!(r.operations.len(), 1);
}

#[test]
fn payment_run_with_explicit_configuration() {
    let config = PaymentConfiguration {
        payment_method_name: "Card".to_string(),
        cart_total: parse_decimal("10").unwrap(),
    };
    let r = run_payment(&config, "10.00", &methods()).unwrap();
    assert_eq!(
        r.operations,
        vec![Operation::Hide { payment_method_id: "gid://2".to_string() }]
    );
}

#[test]
fn payment_same_input_same_output() {
    let first = payment_function(Some(CASH_CONFIG), "150.00", &methods());
    let second = payment_function(Some(CASH_CONFIG), "150.00", &methods());
    assert_eq!(first, second);
}

#[test]
fn decimal_parse_exact_values() {
    assert_eq!(
        parse_decimal("150.00"),
        Some(Decimal { neg: false, mantissa: 15000, scale: 2 })
    );
    assert_eq!(parse_decimal("100"), Some(Decimal { neg: false, mantissa: 100, scale: 0 }));
    assert_eq!(parse_decimal("0.5"), Some(Decimal { neg: false, mantissa: 5, scale: 1 }));
    assert_eq!(
        parse_decimal("-3.25"),
        Some(Decimal { neg: true, mantissa: 325, scale: 2 })
    );
    assert_eq!(parse_decimal("0"), Some(Decimal { neg: false, mantissa: 0, scale: 0 }));
}

#[test]
fn decimal_parse_rejects_bad_shapes() {
    assert_eq!(parse_decimal(""), None);
    assert_eq!(parse_decimal("-"), None);
    assert_eq!(parse_decimal("."), None);
    assert_eq!(parse_decimal(".5"), None);
    assert_eq!(parse_decimal("5."), None);
    assert_eq!(parse_decimal("1.2.3"), None);
    assert_eq!(parse_decimal("1e3"), None);
    assert_eq!(parse_decimal(" 1"), None);
    assert_eq!(parse_decimal("--1"), None);
}

#[test]
fn decimal_parse_rejects_out_of_range_values() {
    // mantissa above u64::MAX
    assert_eq!(parse_decimal("99999999999999999999"), None);
    // more than 18 fraction digits
    assert_eq!(parse_decimal("1.0000000000000000000"), None);
    // u64::MAX itself still fits
    assert_eq!(
        parse_decimal("18446744073709551615"),
        Some(Decimal { neg: false, mantissa: u64::MAX, scale: 0 })
    );
}

#[test]
fn decimal_comparison_is_exact_across_scales() {
    let d = |s: &str| parse_decimal(s).unwrap();
    assert!(dec_lt(&d("50.00"), &d("100.0")));
    assert!(!dec_lt(&d("150.00"), &d("100.0")));
    assert!(!dec_lt(&d("1.50"), &d("1.5")));
    assert!(!dec_lt(&d("1.5"), &d("1.50")));
    assert!(dec_lt(&d("-2"), &d("-1.99")));
    assert!(dec_lt(&d("-0.01"), &d("0")));
    assert!(!dec_lt(&d("0"), &d("-0")));
    assert!(!dec_lt(&d("-0"), &d("0")));
}

#[test]
fn payment_no_methods_is_empty() {
    let none: Vec<PaymentMethod> = vec![];
    let r = payment_function(Some(CASH_CONFIG), "150.00", &none).unwrap();
    assert_eq!(r.operations, vec![]);
}

#[test]
fn payment_top_level_array_configuration_fails() {
    assert_eq!(
        payment_function(Some("[1,2,3]"), "150.00", &methods()),
        Err(Error::ConfigurationMalformed)
    );
}
