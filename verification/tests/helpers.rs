use force_graph::helpers::combination;
use force_graph::helpers::factorial;

#[test]
fn test_custom_factorial() {
    for n in 1..=20 {
        let mut expected: u64 = 1;
        for i in 1..=n {
            expected *= i;
        }
        assert_eq!(factorial(n), expected);
    }
}

#[test]
fn test_custom_combination() {
    for n in 1..=10 {
        for r in 1..=n {
            let expected = factorial(n) / (factorial(r) * factorial(n - r));
            assert_eq!(combination(n, r), expected);
        }
    }
}

#[test]
fn factorial_exact_values() {
    assert_eq!(factorial(0), 1);
    assert_eq!(factorial(1), 1);
    assert_eq!(factorial(5), 120);
    assert_eq!(factorial(20), 2_432_902_008_176_640_000);
}

#[test]
fn combination_exact_values() {
    assert_eq!(combination(7, 0), 1);
    assert_eq!(combination(7, 7), 1);
    assert_eq!(combination(10, 5), 252);
    assert_eq!(combination(20, 10), 184_756);
}
