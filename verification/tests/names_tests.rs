use buffered_logger::Level;
use buffered_logger::Timestamp;
use buffered_logger::archive_file_name;
use buffered_logger::is_archive_file_name;
use buffered_logger::now;
use buffered_logger::reconcile;
use buffered_logger::renamed_file_name;

fn ts(year2: u8, month: u8, day: u8, hour: u8, minute: u8, second: u8, milli: u16) -> Timestamp {
    Timestamp { year2, month, day, hour, minute, second, milli }
}

#[test]
fn renamed_name_is_fixed_width() {
    let t = ts(25, 1, 2, 3, 4, 5, 67);
    let name = renamed_file_name(&b"m".to_vec(), &b"log".to_vec(), &t);
    assert_eq!(name, b"m.250102.030405.067.log".to_vec());
}

#[test]
fn archive_name_appends_gz() {
    let t = ts(7, 12, 31, 23, 59, 58, 999);
    let name = archive_file_name(&b"server".to_vec(), &b"txt".to_vec(), &t);
    assert_eq!(name, b"server.071231.235958.999.txt.gz".to_vec());
}

#[test]
fn archive_shape_is_recognized() {
    let stem = b"m".to_vec();
    let ext = b"log".to_vec();
    assert!(is_archive_file_name(&b"m.250102.030405.067.log.gz".to_vec(), &stem, &ext));
    // Wrong stem, missing suffix, stray letter in the digits, wrong length.
    assert!(!is_archive_file_name(&b"x.250102.030405.067.log.gz".to_vec(), &stem, &ext));
    assert!(!is_archive_file_name(&b"m.250102.030405.067.log".to_vec(), &stem, &ext));
    assert!(!is_archive_file_name(&b"m.25010a.030405.067.log.gz".to_vec(), &stem, &ext));
    assert!(!is_archive_file_name(&b"m.2501022.030405.067.log.gz".to_vec(), &stem, &ext));
    assert!(!is_archive_file_name(&b"m.log".to_vec(), &stem, &ext));
    assert!(!is_archive_file_name(&b"".to_vec(), &stem, &ext));
}

#[test]
fn reconcile_keeps_matching_names_sorted() {
    let listing: Vec<Vec<u8>> = vec![
        b"m.250101.120000.000.log.gz".to_vec(),
        b"other.txt".to_vec(),
        b"m.240615.010203.456.log.gz".to_vec(),
        b"m.log".to_vec(),
        b"m.250101.115959.999.log.gz".to_vec(),
    ];
    let window = reconcile(listing, &b"m".to_vec(), &b"log".to_vec());
    assert_eq!(
        window,
        vec![
            b"m.240615.010203.456.log.gz".to_vec(),
            b"m.250101.115959.999.log.gz".to_vec(),
            b"m.250101.120000.000.log.gz".to_vec(),
        ]
    );
}

#[test]
fn reconcile_is_idempotent() {
    let listing: Vec<Vec<u8>> = vec![
        b"m.250101.120000.000.log.gz".to_vec(),
        b"m.240615.010203.456.log.gz".to_vec(),
    ];
    let once = reconcile(listing, &b"m".to_vec(), &b"log".to_vec());
    let twice = reconcile(once.clone(), &b"m".to_vec(), &b"log".to_vec());
    assert_eq!(once, twice);
    assert_eq!(once.len(), 2);
}

#[test]
fn reconcile_of_empty_listing_is_empty() {
    let window = reconcile(Vec::new(), &b"m".to_vec(), &b"log".to_vec());
    assert!(window.is_empty());
}

#[test]
fn clock_yields_calendar_ranges() {
    let t = now();
    assert!(t.year2 < 100);
    assert!((1..=12).contains(&t.month));
    assert!((1..=31).contains(&t.day));
    assert!(t.hour < 24);
    assert!(t.minute < 60);
    assert!(t.second < 60);
    assert!(t.milli < 1000);
}

#[test]
fn severity_threshold_filters_below() {
    assert!(Level::Error.passes(Level::Trace));
    assert!(Level::Info.passes(Level::Info));
    assert!(!Level::Debug.passes(Level::Info));
    assert!(!Level::Trace.passes(Level::Error));
    assert!(Level::Warn.passes(Level::Debug));
}
