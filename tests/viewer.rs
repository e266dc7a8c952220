use byte_histogram::viewer::HistogramApp;

#[test]
fn starts_with_nothing_shown() {
    let app = HistogramApp::default();
    assert!(app.selected_file().is_none());
    assert!(app.histogram().is_none());
    assert!(app.error_message().is_none());
}

#[test]
fn loading_a_file_shows_its_histogram() {
    let mut app = HistogramApp::default();
    app.file_loaded("/tmp/a.bin".to_string(), &[1, 2, 2]);
    assert_eq!(app.selected_file().unwrap(), "/tmp/a.bin");
    let h = app.histogram().unwrap();
    assert_eq!(h.count(2), 2);
    assert_eq!(h.count(1), 1);
    assert_eq!(h.total(), 3);
    assert!(app.error_message().is_none());
}

#[test]
fn read_error_is_shown_and_histogram_dropped() {
    let mut app = HistogramApp::default();
    app.file_loaded("first".to_string(), &[9]);
    app.read_failed("permission denied");
    assert_eq!(app.error_message().unwrap(), "Error reading file: permission denied");
    assert!(app.histogram().is_none());
    assert_eq!(app.selected_file().unwrap(), "first");
}

#[test]
fn read_error_before_any_file() {
    let mut app = HistogramApp::default();
    app.read_failed("not found");
    assert_eq!(app.error_message().unwrap(), "Error reading file: not found");
    assert!(app.selected_file().is_none());
    assert!(app.histogram().is_none());
}

#[test]
fn loading_clears_an_earlier_error() {
    let mut app = HistogramApp::default();
    app.read_failed("boom");
    app.file_loaded("b".to_string(), &[]);
    assert!(app.error_message().is_none());
    assert_eq!(app.histogram().unwrap().total(), 0);
}

#[test]
fn reselecting_the_same_file_gives_the_same_histogram() {
    let bytes: Vec<u8> = (0..777u32).map(|i| (i * 13 % 256) as u8).collect();
    let mut app = HistogramApp::default();
    app.file_loaded("same".to_string(), &bytes);
    let first: Vec<u32> = (0..=255u8).map(|v| app.histogram().unwrap().count(v)).collect();
    app.file_loaded("same".to_string(), &bytes);
    let second: Vec<u32> = (0..=255u8).map(|v| app.histogram().unwrap().count(v)).collect();
    assert_eq!(first, second);
    assert_eq!(app.selected_file().unwrap(), "same");
}

#[test]
fn a_new_file_replaces_the_old_histogram() {
    let mut app = HistogramApp::default();
    app.file_loaded("one".to_string(), &[5, 5, 5]);
    app.file_loaded("two".to_string(), &[6]);
    let h = app.histogram().unwrap();
    assert_eq!(h.count(5), 0);
    assert_eq!(h.count(6), 1);
    assert_eq!(app.selected_file().unwrap(), "two");
}
