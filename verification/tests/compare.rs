use reg_core::compare::collect_outcomes;
use reg_core::compare::include_anti_alias;
use reg_core::compare::is_passed;
use reg_core::compare::pixel_count;
use reg_core::compare::worker_count;
use reg_core::compare::ComparedImage;
use reg_core::compare::DiffOutcome;
use reg_core::CompareError;

fn within_rate(width: u32, height: u32, diff_count: u64, rate: f32) -> bool {
    let ratio = diff_count as f32 / pixel_count(width, height) as f32;
    ratio <= rate
}

#[test]
fn pixel_threshold_is_inclusive() {
    assert!(is_passed(10, Some(10), None));
    assert!(!is_passed(11, Some(10), None));
    assert!(is_passed(0, Some(10), None));
    assert!(is_passed(0, Some(0), None));
    assert!(!is_passed(1, Some(0), None));
    assert!(is_passed(u64::MAX, Some(u64::MAX), None));
}

#[test]
fn pixel_threshold_comes_before_the_rate() {
    assert!(is_passed(10, Some(10), Some(false)));
    assert!(!is_passed(11, Some(10), Some(true)));
}

#[test]
fn rate_threshold_of_one_percent() {
    let rate = 0.01f32;
    assert!(is_passed(100, None, Some(within_rate(100, 100, 100, rate))));
    assert!(!is_passed(101, None, Some(within_rate(100, 100, 101, rate))));
    assert!(is_passed(0, None, Some(within_rate(100, 100, 0, rate))));
}

#[test]
fn without_thresholds_nothing_may_differ() {
    assert!(is_passed(0, None, None));
    assert!(!is_passed(1, None, None));
    assert!(!is_passed(u64::MAX, None, None));
}

#[test]
fn no_difference_always_passes() {
    assert!(is_passed(0, None, None));
    assert!(is_passed(0, Some(0), None));
    assert!(is_passed(0, Some(5), Some(false)));
    assert!(is_passed(0, None, Some(within_rate(640, 480, 0, 0.0))));
    assert!(is_passed(0, None, Some(within_rate(1, 1, 0, 0.5))));
}

#[test]
fn fewer_differences_never_fail_where_more_pass() {
    for threshold in [None, Some(0u64), Some(3), Some(50)] {
        for rate in [None, Some(0.0f32), Some(0.002), Some(0.5)] {
            let mut passed_before = true;
            for diff_count in 0..120u64 {
                let verdict = rate.map(|r| within_rate(10, 10, diff_count, r));
                let passed = is_passed(diff_count, threshold, verdict);
                assert!(passed_before || !passed);
                passed_before = passed;
            }
        }
    }
}

#[test]
fn pixel_count_does_not_overflow() {
    assert_eq!(pixel_count(100, 100), 10_000);
    assert_eq!(pixel_count(0, 7), 0);
    assert_eq!(pixel_count(65_536, 65_536), 4_294_967_296);
    assert_eq!(pixel_count(u32::MAX, u32::MAX), 18_446_744_065_119_617_025);
}

#[test]
fn worker_count_defaults_to_four_and_is_at_least_one() {
    assert_eq!(worker_count(None), 4);
    assert_eq!(worker_count(Some(0)), 1);
    assert_eq!(worker_count(Some(1)), 1);
    assert_eq!(worker_count(Some(16)), 16);
}

#[test]
fn anti_aliased_pixels_count_unless_enabled() {
    assert!(include_anti_alias(None));
    assert!(include_anti_alias(Some(false)));
    assert!(!include_anti_alias(Some(true)));
}

fn equal() -> ComparedImage {
    ComparedImage { outcome: DiffOutcome::Equal, within_rate: None }
}

fn different(diff_count: u64) -> ComparedImage {
    ComparedImage {
        outcome: DiffOutcome::Different {
            diff_count,
            width: 4,
            height: 4,
            diff_image: vec![1, 2, 3],
        },
        within_rate: Some(false),
    }
}

#[test]
fn collect_outcomes_keeps_the_order() {
    let collected = collect_outcomes(vec![Ok(equal()), Ok(different(3)), Ok(equal())]).unwrap();
    assert_eq!(collected, vec![equal(), different(3), equal()]);
}

#[test]
fn collect_outcomes_of_nothing() {
    assert_eq!(collect_outcomes(Vec::new()), Ok(Vec::new()));
}

#[test]
fn collect_outcomes_fails_with_the_first_error() {
    let collected = collect_outcomes(vec![
        Ok(equal()),
        Err(CompareError::ImageDiff("bad".to_string())),
        Ok(different(1)),
        Err(CompareError::File("gone".to_string())),
    ]);
    assert_eq!(collected, Err(CompareError::ImageDiff("bad".to_string())));
}
