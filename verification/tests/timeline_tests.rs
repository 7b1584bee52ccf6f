use burn_gradient_demo_app::timeline::{timeline_items, timeline_wait_step, WaitStep, TIMELINE_MAX_RETRIES};

#[test]
fn wait_proceeds_when_library_is_there() {
    assert_eq!(timeline_wait_step(true, 0), WaitStep::Proceed);
    assert_eq!(timeline_wait_step(true, 7), WaitStep::Proceed);
}

#[test]
fn wait_retries_until_limit() {
    assert_eq!(timeline_wait_step(false, 0), WaitStep::Retry);
    assert_eq!(timeline_wait_step(false, TIMELINE_MAX_RETRIES), WaitStep::Retry);
    assert_eq!(timeline_wait_step(false, TIMELINE_MAX_RETRIES + 1), WaitStep::Proceed);
}

#[test]
fn wait_gives_up_after_twenty_one_retries() {
    let mut attempts: u32 = 0;
    while timeline_wait_step(false, attempts) == WaitStep::Retry {
        attempts += 1;
    }
    assert_eq!(attempts, 21);
}

#[test]
fn timeline_shows_two_items_and_two_periods() {
    let items = timeline_items();
    assert_eq!(items.len(), 4);
    assert_eq!(items[0].id, "1");
    assert_eq!(items[0].content, "item 1");
    assert_eq!(items[0].start, "2014-04-20");
    assert!(items[0].kind.is_none() && items[0].end.is_none());
    assert_eq!(items[1].start, "2014-04-14");
    assert_eq!(items[2].id, "bg1");
    assert_eq!(items[2].kind.as_deref(), Some("background"));
    assert_eq!(items[2].content, "Period A");
    assert_eq!(items[2].end.as_deref(), Some("2014-04-16"));
    assert_eq!(items[3].id, "bg2");
    assert_eq!(items[3].content, "Period B");
    assert_eq!(items[3].start, "2014-04-18");
    assert_eq!(items[3].end.as_deref(), Some("2014-04-25"));
}
