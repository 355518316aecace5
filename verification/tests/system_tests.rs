use stepcheck::system::run_system;
use stepcheck::system::SystemVariant;

#[test]
fn memory_metric_is_digits_or_fixed_message() {
    match run_system(&SystemVariant::MemTotal) {
        Ok(s) => {
            assert!(!s.is_empty());
            assert!(s.chars().all(|c| c.is_ascii_digit()));
        }
        Err(e) => assert_eq!(e, "Could not get memory"),
    }
}

#[test]
fn load_metric_is_text_or_fixed_message() {
    match run_system(&SystemVariant::LoadAvg1m) {
        Ok(s) => assert!(!s.is_empty()),
        Err(e) => assert_eq!(e, "Could not get load"),
    }
}

#[test]
fn disk_metric_is_digits_or_fixed_message() {
    match run_system(&SystemVariant::DiskFree) {
        Ok(s) => {
            assert!(!s.is_empty());
            assert!(s.chars().all(|c| c.is_ascii_digit()));
        }
        Err(e) => assert_eq!(e, "Could not get disk"),
    }
}
