//! Cache statistics.
use kiro_admin::cache_stats::{cache_stats_from, generate_fake_cache_stats, CacheDraws, CacheStats};

#[test]
fn test_generate_fake_cache_stats_zero() {
    let stats = generate_fake_cache_stats(0);
    assert_eq!(stats.cache_read_input_tokens, 0);
    assert_eq!(stats.cache_creation_input_tokens, 0);
}

#[test]
fn test_generate_fake_cache_stats_small() {
    let stats = generate_fake_cache_stats(100);
    assert!(stats.cache_read_input_tokens >= 0);
    assert!(stats.cache_read_input_tokens <= 100);
}

#[test]
fn test_generate_fake_cache_stats_large() {
    let stats = generate_fake_cache_stats(100000);
    // Most of the input counts as read.
    assert!(stats.cache_read_input_tokens >= 50000);
    assert!(stats.cache_read_input_tokens <= 90000);
    // Little of it counts as written.
    assert!(stats.cache_creation_input_tokens <= 25000);
}

/// The statistics in floating point, the arithmetic that the library carries out on integers.
fn in_floating_point(input_tokens: i32, draws: CacheDraws) -> CacheStats {
    let base_read_ratio = draws.read_percent as f64 / 100.0;
    let cache_read = (input_tokens as f64 * base_read_ratio) as i32;
    let read_variance = draws.read_variance as f64 / 100.0;
    let varied = ((cache_read as f64) * (1.0 + read_variance)) as i32;
    let read = varied
        .min((input_tokens as f64 * 0.9) as i32)
        .max(input_tokens.min(1000));
    let base_creation_ratio = draws.creation_percent as f64 / 100.0;
    let cache_creation = (input_tokens as f64 * base_creation_ratio) as i32;
    let creation = (cache_creation / 6 + draws.creation_variance).min(25000);
    CacheStats {
        cache_read_input_tokens: read,
        cache_creation_input_tokens: creation,
    }
}

fn inputs() -> Vec<i32> {
    let mut inputs: Vec<i32> = (1..400).collect();
    inputs.extend([
        999, 1000, 1001, 1110, 1111, 1112, 1113, 1250, 5700, 12345, 99999, 100000, 100001, 1000000,
        999983, 123456789, 987654321, 2000000000, 2147483646, 2147483647,
    ]);
    let mut x: i64 = 1;
    for _ in 0..300 {
        x = (x * 48271) % 2147483647;
        inputs.push(x as i32);
    }
    inputs
}

#[test]
fn read_tokens_agree_with_floating_point() {
    for input in inputs() {
        for read_percent in 60..=85 {
            for read_variance in -5..=5 {
                let draws = CacheDraws {
                    read_percent,
                    read_variance,
                    creation_percent: 5,
                    creation_variance: 0,
                };
                assert_eq!(
                    cache_stats_from(input, draws),
                    in_floating_point(input, draws),
                    "{} {:?}",
                    input,
                    draws
                );
            }
        }
    }
}

#[test]
fn creation_tokens_agree_with_floating_point() {
    for input in inputs() {
        for creation_percent in 5..=15 {
            for creation_variance in [0, 1, 500, 999, 1000] {
                let draws = CacheDraws {
                    read_percent: 60,
                    read_variance: 0,
                    creation_percent,
                    creation_variance,
                };
                assert_eq!(
                    cache_stats_from(input, draws),
                    in_floating_point(input, draws),
                    "{} {:?}",
                    input,
                    draws
                );
            }
        }
    }
}

#[test]
fn a_share_that_rounds_below_its_decimal_value() {
    // In doubles, 10000 * 0.69 is a little less than 6900.
    let draws = CacheDraws {
        read_percent: 69,
        read_variance: 0,
        creation_percent: 5,
        creation_variance: 0,
    };
    let stats = cache_stats_from(10000, draws);
    assert_eq!(stats.cache_read_input_tokens, 6899);
    assert_eq!(stats.cache_creation_input_tokens, 83);
}

#[test]
fn exact_statistics_of_given_draws() {
    let draws = CacheDraws {
        read_percent: 75,
        read_variance: 4,
        creation_percent: 10,
        creation_variance: 250,
    };
    let stats = cache_stats_from(100000, draws);
    assert_eq!(stats.cache_read_input_tokens, 78000);
    assert_eq!(stats.cache_creation_input_tokens, 1916);
}

#[test]
fn reading_is_capped_at_nine_tenths() {
    let draws = CacheDraws {
        read_percent: 85,
        read_variance: 5,
        creation_percent: 15,
        creation_variance: 1000,
    };
    // 85 percent and five percent of that stay below the cap.
    assert_eq!(cache_stats_from(100000, draws).cache_read_input_tokens, 89250);
    assert_eq!(cache_stats_from(100000, draws).cache_creation_input_tokens, 3500);
    assert_eq!(cache_stats_from(2000000, draws).cache_creation_input_tokens, 25000);
}

#[test]
fn short_inputs_count_as_read_entirely() {
    for input in [1, 2, 100, 999, 1000] {
        assert_eq!(generate_fake_cache_stats(input).cache_read_input_tokens, input);
    }
    assert_eq!(generate_fake_cache_stats(1100).cache_read_input_tokens, 1000);
}

#[test]
fn no_input_gives_no_statistics() {
    for input in [-1, -100000, i32::MIN] {
        let stats = generate_fake_cache_stats(input);
        assert_eq!(stats.cache_read_input_tokens, 0);
        assert_eq!(stats.cache_creation_input_tokens, 0);
    }
}

#[test]
fn statistics_stay_within_their_bounds() {
    for input in inputs() {
        let stats = generate_fake_cache_stats(input);
        let (input, read) = (input as i64, stats.cache_read_input_tokens as i64);
        let creation = stats.cache_creation_input_tokens as i64;
        assert!(input.min(1000) <= read && read <= input);
        assert!(input < 2 * read);
        assert!(input < 1112 || 10 * read <= 9 * input);
        assert!(0 <= creation && creation <= 25000);
        assert!(40 * creation <= input + 40000);
    }
}

#[test]
fn draws_vary_within_their_ranges() {
    let mut seen: Vec<i32> = Vec::new();
    for _ in 0..200 {
        let read = generate_fake_cache_stats(1000000).cache_read_input_tokens;
        assert!(570000 - 2 <= read && read <= 892500);
        if !seen.contains(&read) {
            seen.push(read);
        }
    }
    assert!(seen.len() > 1);
}
