use fourree::generators::{
    generate_choice, generate_date, generate_gauss, generate_integer, generate_string,
};
use fourree::rng::{SplitMix64, ThreadRandom};

#[test]
fn integer_samples_stay_in_range() {
    let mut rng = ThreadRandom::new();
    for _ in 0..10_000 {
        let v = generate_integer(&mut rng, -50, 4200);
        assert!(-50 <= v && v < 4200);
    }
}

#[test]
fn integer_samples_in_range_deterministic() {
    let mut rng = SplitMix64::new(12345);
    for _ in 0..10_000 {
        let v = generate_integer(&mut rng, 0, 3);
        assert!(0 <= v && v < 3);
    }
}

#[test]
fn integer_samples_vary() {
    let mut rng = ThreadRandom::new();
    let first = generate_integer(&mut rng, 0, 1_000_000_000);
    let mut saw_other = false;
    for _ in 0..1000 {
        if generate_integer(&mut rng, 0, 1_000_000_000) != first {
            saw_other = true;
        }
    }
    assert!(saw_other);
}

#[test]
fn string_is_uppercase_of_requested_length() {
    let mut rng = ThreadRandom::new();
    for len in [0usize, 1, 5, 64] {
        let s = generate_string(&mut rng, len);
        assert_eq!(s.chars().count(), len);
        assert!(s.chars().all(|c| c.is_ascii_uppercase()));
    }
}

#[test]
fn date_samples_stay_in_table_ranges() {
    let mut rng = ThreadRandom::new();
    for _ in 0..100_000 {
        let d = generate_date(&mut rng);
        assert!((1..=12).contains(&d.month));
        let days = match d.month {
            2 => 28,
            1 | 3 | 5 | 7 | 8 | 10 | 12 => 31,
            _ => 30,
        };
        assert!((1..=days).contains(&d.day));
        if d.month == 2 {
            assert!(d.day <= 28);
        }
        assert!((1901..=2016).contains(&d.year));
    }
}

#[test]
fn gauss_with_zero_spread_is_the_mean() {
    let mut rng = ThreadRandom::new();
    assert_eq!(generate_gauss(&mut rng, 42, 0), 42);
    let mut rng = SplitMix64::new(7);
    assert_eq!(generate_gauss(&mut rng, -9, 0), -9);
}

#[test]
fn choice_concatenates_drawn_elements() {
    let mut rng = ThreadRandom::new();
    let choices = vec!["ab".to_string(), "c".to_string(), "xyz".to_string()];
    for _ in 0..200 {
        let v = generate_choice(&mut rng, &choices, 4);
        // The value must decompose into exactly 4 elements of the set.
        let mut rest = v.as_str();
        let mut picks = 0;
        while !rest.is_empty() {
            let mut matched = false;
            // Longest-first so "xyz" is not shadowed by a shorter prefix.
            for c in ["xyz", "ab", "c"] {
                if let Some(r) = rest.strip_prefix(c) {
                    rest = r;
                    picks += 1;
                    matched = true;
                    break;
                }
            }
            assert!(matched, "unexpected content in choice value: {v}");
        }
        assert_eq!(picks, 4);
        // Total width respects the widest element times the pick count.
        assert!(v.chars().count() <= 4 * 3);
    }
}

#[test]
fn choice_of_single_element_is_repetition() {
    let mut rng = SplitMix64::new(1);
    let choices = vec!["ha".to_string()];
    assert_eq!(generate_choice(&mut rng, &choices, 3), "hahaha");
    assert_eq!(generate_choice(&mut rng, &choices, 0), "");
}
