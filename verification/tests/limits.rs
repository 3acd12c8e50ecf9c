use duroxide::runtime::limits::{custom_status_fits, trim_carry_forward, MAX_CARRY_FORWARD_EVENTS, MAX_CUSTOM_STATUS_BYTES};

#[test]
fn carry_forward_keeps_the_newest_events() {
    let few: Vec<u32> = (0..5).collect();
    assert_eq!(trim_carry_forward(few.clone()), few);
    let many: Vec<u32> = (0..25).collect();
    let kept = trim_carry_forward(many);
    assert_eq!(kept.len(), MAX_CARRY_FORWARD_EVENTS);
    assert_eq!(kept[0], 5);
    assert_eq!(kept[19], 24);
}

#[test]
fn custom_status_limit_counts_bytes() {
    assert_eq!(MAX_CUSTOM_STATUS_BYTES, 256 * 1024);
    assert!(custom_status_fits("progress: 50%"));
    assert!(custom_status_fits(&"x".repeat(MAX_CUSTOM_STATUS_BYTES)));
    assert!(!custom_status_fits(&"x".repeat(MAX_CUSTOM_STATUS_BYTES + 1)));
    // Two bytes per character.
    assert!(!custom_status_fits(&"é".repeat(MAX_CUSTOM_STATUS_BYTES / 2 + 1)));
}
