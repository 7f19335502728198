use ecash_probe::amount::Amount;
use ecash_probe::errors::EngineError;

#[test]
fn split_zero_is_empty() {
    let parts = Amount { value: 0 }.split();
    assert!(parts.is_empty());
}

#[test]
fn split_is_canonical_binary_decomposition() {
    let parts = Amount { value: 11 }.split();
    let vals: Vec<u64> = parts.iter().map(|a| a.value).collect();
    assert_eq!(vals, vec![1, 2, 8]);
}

#[test]
fn split_power_of_two_is_single_part() {
    let parts = Amount { value: 1u64 << 63 }.split();
    let vals: Vec<u64> = parts.iter().map(|a| a.value).collect();
    assert_eq!(vals, vec![1u64 << 63]);
}

#[test]
fn split_max_value_roundtrips_without_wrap() {
    let a = Amount { value: u64::MAX };
    let parts = a.split();
    assert_eq!(parts.len(), 64);
    let total = Amount::try_sum(&parts).unwrap();
    assert_eq!(total.value, u64::MAX);
}

#[test]
fn split_roundtrips_on_samples() {
    for v in [0u64, 1, 2, 3, 5, 37, 1024, (1u64 << 63) + 1, u64::MAX - 1] {
        let parts = Amount { value: v }.split();
        let total = Amount::try_sum(&parts).unwrap();
        assert_eq!(total.value, v);
    }
}

#[test]
fn checked_add_detects_overflow() {
    let max = Amount { value: u64::MAX };
    assert!(max.checked_add(Amount { value: 1 }).is_none());
    let a = Amount { value: 40 };
    let b = Amount { value: 2 };
    assert_eq!(a.checked_add(b).unwrap().value, 42);
}

#[test]
fn try_sum_reports_overflow() {
    let parts = vec![Amount { value: 1u64 << 63 }, Amount { value: 1u64 << 63 }];
    assert_eq!(Amount::try_sum(&parts), Err(EngineError::AmountOverflow));
}

#[test]
fn try_sum_of_empty_is_zero() {
    let parts: Vec<Amount> = Vec::new();
    assert_eq!(Amount::try_sum(&parts).unwrap().value, 0);
}
