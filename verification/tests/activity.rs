use duroxide::providers::WorkItem;
use duroxide::runtime::activity::activity_report;

#[test]
fn activity_reports_results_errors_and_missing_handlers() {
    assert_eq!(
        activity_report("i", 1, 2, "A", Some(Ok("r".to_string()))),
        WorkItem::ActivityCompleted { instance: "i".to_string(), execution_id: 1, id: 2, result: "r".to_string() }
    );
    assert_eq!(
        activity_report("i", 1, 2, "A", Some(Err("e".to_string()))),
        WorkItem::ActivityFailed { instance: "i".to_string(), execution_id: 1, id: 2, error: "e".to_string() }
    );
    assert_eq!(
        activity_report("i", 1, 2, "Missing", None),
        WorkItem::ActivityFailed { instance: "i".to_string(), execution_id: 1, id: 2, error: "unregistered:Missing".to_string() }
    );
}
