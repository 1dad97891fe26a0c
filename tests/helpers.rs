use template_rand::decimal::decimal_text;
use template_rand::helpers::{call_in_order, random_int, random_string, range, Helper, HelperError, HelperOutput};
use template_rand::seed::resolve_seed;
use template_rand::source::RandomSource;

fn seeded(text: &str) -> RandomSource {
    match resolve_seed(Some(text)) {
        Ok(src) => src,
        Err(e) => panic!("seed {} refused: {:?}", text, e),
    }
}

fn text_of(r: &Result<HelperOutput, HelperError>) -> String {
    match r {
        Ok(HelperOutput::Text(s)) => s.clone(),
        other => panic!("expected text, got {:?}", other),
    }
}

#[test]
fn range_of_zero_is_empty() {
    assert_eq!(range(Some(0)), Ok(vec![]));
}

#[test]
fn range_of_five_counts_up() {
    assert_eq!(range(Some(5)), Ok(vec![0, 1, 2, 3, 4]));
}

#[test]
fn range_without_argument_is_invalid() {
    assert_eq!(range(None), Err(HelperError::InvalidArgument));
}

#[test]
fn random_int_of_zero_digits_is_invalid() {
    let mut src = seeded("1,2,3,4");
    assert_eq!(random_int(&mut src, Some(0)), Err(HelperError::InvalidArgument));
}

#[test]
fn random_int_without_argument_is_invalid() {
    let mut src = seeded("1,2,3,4");
    assert_eq!(random_int(&mut src, None), Err(HelperError::InvalidArgument));
}

#[test]
fn random_int_beyond_u64_is_invalid() {
    let mut src = seeded("1,2,3,4");
    assert_eq!(random_int(&mut src, Some(20)), Err(HelperError::InvalidArgument));
}

#[test]
fn random_int_has_exact_digit_count() {
    let mut src = seeded("0,0,0,1");
    for d in 1..=19u32 {
        for _ in 0..50 {
            let v = random_int(&mut src, Some(d as u64)).unwrap();
            let low = 10u64.pow(d - 1);
            let high = if d == 19 { u64::MAX } else { 10u64.pow(d) };
            assert!(low <= v && v < high - 1, "{} digits gave {}", d, v);
            let text = decimal_text(v);
            assert_eq!(text.len(), d as usize);
            assert!(!text.starts_with('0'));
        }
    }
}

#[test]
fn random_int_of_one_digit_never_draws_nine() {
    let mut src = seeded("5,6,7,8");
    for _ in 0..500 {
        let v = random_int(&mut src, Some(1)).unwrap();
        assert!((1..9).contains(&v), "one digit gave {}", v);
    }
}

#[test]
fn random_string_has_requested_length() {
    let mut src = seeded("9,9,9,9");
    for len in [0u64, 1, 2, 17, 100, 1000] {
        let s = random_string(&mut src, Some(len)).unwrap();
        assert_eq!(s.chars().count(), len as usize);
        assert!(s.chars().all(|c| c.is_ascii_alphanumeric()));
        assert!(s.bytes().all(|b| (0x20..0x7f).contains(&b)));
    }
}

#[test]
fn random_string_of_zero_is_empty() {
    let mut src = seeded("1,1,1,1");
    assert_eq!(random_string(&mut src, Some(0)), Ok(String::new()));
}

#[test]
fn random_string_without_argument_is_invalid() {
    let mut src = seeded("1,1,1,1");
    assert_eq!(random_string(&mut src, None), Err(HelperError::InvalidArgument));
}

#[test]
fn random_string_varies_between_draws() {
    let mut src = seeded("1,2,3,4");
    let a = random_string(&mut src, Some(32)).unwrap();
    let b = random_string(&mut src, Some(32)).unwrap();
    assert_ne!(a, b);
}

#[test]
fn decimal_text_writes_digits() {
    assert_eq!(decimal_text(0), "0");
    assert_eq!(decimal_text(1234), "1234");
    assert_eq!(decimal_text(u64::MAX), "18446744073709551615");
}

#[test]
fn helper_names() {
    assert_eq!(Helper::RandomString.name(), "str");
    assert_eq!(Helper::RandomInt.name(), "int");
    assert_eq!(Helper::Range.name(), "range");
}

#[test]
fn call_dispatches_to_each_helper() {
    let mut src = seeded("3,1,4,1");
    assert_eq!(text_of(&Helper::RandomString.call(&mut src, Some(6))).len(), 6);
    assert_eq!(text_of(&Helper::RandomInt.call(&mut src, Some(4))).len(), 4);
    match Helper::Range.call(&mut src, Some(3)) {
        Ok(HelperOutput::Sequence(v)) => assert_eq!(v, vec![0, 1, 2]),
        other => panic!("expected a sequence, got {:?}", other),
    }
    assert!(matches!(Helper::RandomInt.call(&mut src, Some(0)), Err(HelperError::InvalidArgument)));
    assert!(matches!(Helper::RandomString.call(&mut src, None), Err(HelperError::InvalidArgument)));
}

fn script() -> Vec<(Helper, Option<u64>)> {
    vec![
        (Helper::RandomString, Some(12)),
        (Helper::Range, Some(3)),
        (Helper::RandomInt, Some(6)),
        (Helper::RandomString, Some(5)),
        (Helper::RandomInt, Some(19)),
    ]
}

fn texts(results: &[Result<HelperOutput, HelperError>]) -> Vec<String> {
    results
        .iter()
        .map(|r| match r {
            Ok(HelperOutput::Text(s)) => s.clone(),
            Ok(HelperOutput::Sequence(v)) => format!("{:?}", v),
            Err(e) => format!("{:?}", e),
        })
        .collect()
}

#[test]
fn same_seed_gives_same_results() {
    let first = call_in_order(&mut seeded("0,0,0,1"), &script());
    let second = call_in_order(&mut seeded("0,0,0,1"), &script());
    assert_eq!(texts(&first), texts(&second));
}

#[test]
fn different_seeds_give_different_results() {
    let first = call_in_order(&mut seeded("0,0,0,1"), &script());
    let second = call_in_order(&mut seeded("1,0,0,0"), &script());
    assert_ne!(texts(&first), texts(&second));
}

#[test]
fn range_calls_do_not_move_draws() {
    let with = call_in_order(&mut seeded("7,7,7,7"), &script());
    let without: Vec<(Helper, Option<u64>)> =
        script().into_iter().filter(|(h, _)| *h != Helper::Range).collect();
    let without = call_in_order(&mut seeded("7,7,7,7"), &without);
    let mut expected = texts(&with);
    expected.remove(1);
    assert_eq!(expected, texts(&without));
}

#[test]
fn rejected_calls_do_not_move_draws() {
    let plain = call_in_order(&mut seeded("2,4,6,8"), &script());
    let mut noisy = script();
    noisy.insert(2, (Helper::RandomInt, Some(0)));
    noisy.insert(0, (Helper::RandomString, None));
    let noisy = call_in_order(&mut seeded("2,4,6,8"), &noisy);
    let mut got = texts(&noisy);
    assert_eq!(got.remove(3), "InvalidArgument");
    assert_eq!(got.remove(0), "InvalidArgument");
    assert_eq!(got, texts(&plain));
}

#[test]
fn earlier_results_ignore_later_calls() {
    let full = call_in_order(&mut seeded("1,2,3,4"), &script());
    let head = call_in_order(&mut seeded("1,2,3,4"), &script()[..2].to_vec());
    assert_eq!(texts(&head), texts(&full)[..2].to_vec());
}
