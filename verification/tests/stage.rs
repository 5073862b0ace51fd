use gopro_sync::stage::{conclude, failure_message, first_stage, Stage};

#[test]
fn invocation_begins_with_the_wake_signal() {
    assert_eq!(first_stage(), Stage::Wake);
}

#[test]
fn failure_lines() {
    assert_eq!(failure_message(Stage::Wake), "failed to WoL");
    assert_eq!(failure_message(Stage::Info), "failed to get gopro info");
    assert_eq!(failure_message(Stage::Sync), "failed to enumerate dl files");
}

#[test]
fn success_reports_nothing() {
    assert_eq!(conclude(Stage::Wake, true), (Some(Stage::Info), None));
    assert_eq!(conclude(Stage::Info, true), (Some(Stage::Sync), None));
    assert_eq!(conclude(Stage::Sync, true), (None, None));
}

#[test]
fn failure_reports_one_line_and_moves_on() {
    assert_eq!(conclude(Stage::Wake, false), (Some(Stage::Info), Some("failed to WoL")));
    assert_eq!(conclude(Stage::Info, false), (Some(Stage::Sync), Some("failed to get gopro info")));
    assert_eq!(conclude(Stage::Sync, false), (None, Some("failed to enumerate dl files")));
}

fn invocation(wake: bool, info: bool, sync: bool) -> (Vec<Stage>, Vec<&'static str>) {
    let mut attempted = Vec::new();
    let mut reported = Vec::new();
    let mut stage = Some(first_stage());
    while let Some(current) = stage {
        attempted.push(current);
        let succeeded = match current {
            Stage::Wake => wake,
            Stage::Info => info,
            Stage::Sync => sync,
        };
        let (next, line) = conclude(current, succeeded);
        reported.extend(line);
        stage = next;
    }
    (attempted, reported)
}

#[test]
fn all_stages_are_attempted_whatever_fails() {
    for wake in [false, true] {
        for info in [false, true] {
            for sync in [false, true] {
                let (attempted, reported) = invocation(wake, info, sync);
                assert_eq!(attempted, vec![Stage::Wake, Stage::Info, Stage::Sync]);
                let failures = [wake, info, sync].iter().filter(|ok| !**ok).count();
                assert_eq!(reported.len(), failures);
            }
        }
    }
}

#[test]
fn failed_information_query_leaves_the_sync_alone() {
    let (attempted, reported) = invocation(true, false, true);
    assert_eq!(attempted, vec![Stage::Wake, Stage::Info, Stage::Sync]);
    assert_eq!(reported, vec!["failed to get gopro info"]);
}

#[test]
fn failed_sync_is_reported_once() {
    let (_, reported) = invocation(true, true, false);
    assert_eq!(reported, vec!["failed to enumerate dl files"]);
}

#[test]
fn everything_failing_reports_three_lines_in_order() {
    let (_, reported) = invocation(false, false, false);
    assert_eq!(
        reported,
        vec!["failed to WoL", "failed to get gopro info", "failed to enumerate dl files"]
    );
}
