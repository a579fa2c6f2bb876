use copypaster::settings::{default_retention, max_age_secs, DEFAULT_RETENTION_DAYS, RETENTION_CHOICES};

#[test]
fn zero_means_no_expiry() {
    assert_eq!(max_age_secs(0), None);
}

#[test]
fn the_default_retention_is_a_week() {
    assert_eq!(default_retention(), 7);
    assert_eq!(max_age_secs(DEFAULT_RETENTION_DAYS), Some(7 * 86_400));
}

#[test]
fn every_offered_choice_has_its_age() {
    let ages: Vec<Option<u64>> = RETENTION_CHOICES.iter().map(|d| max_age_secs(*d)).collect();
    assert_eq!(ages, vec![Some(86_400), Some(7 * 86_400), Some(30 * 86_400), None]);
}

#[test]
fn the_largest_retention_does_not_overflow() {
    assert_eq!(max_age_secs(u32::MAX), Some(u32::MAX as u64 * 86_400));
}
