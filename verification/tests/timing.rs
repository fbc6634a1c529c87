use rask::timing::Timer;

#[test]
fn test_timer_creation() {
    let _timer = Timer::new("test_operation");
    // Timer should be created successfully
    // The underscore ensures it's not dropped immediately
}

#[test]
fn test_timer_with_different_labels() {
    let _timer1 = Timer::new("operation_one");
    let _timer2 = Timer::new("operation_two");
    assert_eq!(_timer1.label(), "operation_one");
    assert_eq!(_timer2.label(), "operation_two");
}

#[test]
fn timer_report_starts_with_label() {
    let timer = Timer::new(String::from("load"));
    let line = timer.report();
    assert!(line.starts_with("load: "));
    assert!(line.len() > "load: ".len());
}
