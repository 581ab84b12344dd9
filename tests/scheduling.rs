use vanguard::schedule::{delay_secs_until, Scheduler, Trigger, SCHEDULE_END};

const JAN_1_2024: i64 = 1_704_067_200;

#[test]
fn triggers_come_in_increasing_order() {
    let schedule = "0 0 0,12 * * * *";
    let mut s = Scheduler::starting_at(JAN_1_2024);
    let t1 = s.next_trigger(schedule, JAN_1_2024).unwrap();
    assert_eq!(t1, Trigger { at: JAN_1_2024 + 12 * 3600, delay_secs: 12 * 3600 });
    let t2 = s.next_trigger(schedule, t1.at).unwrap();
    assert_eq!(t2.at, JAN_1_2024 + 24 * 3600);
    assert_eq!(t2.delay_secs, 12 * 3600);
    assert_eq!(s.cursor, t2.at);
}

#[test]
fn late_job_does_not_skip_the_next_trigger() {
    let schedule = "0 0 0,12 * * * *";
    let mut s = Scheduler::starting_at(JAN_1_2024);
    let t1 = s.next_trigger(schedule, JAN_1_2024).unwrap();
    // the job at t1 failed after running past t2
    let t2 = s.next_trigger(schedule, t1.at + 13 * 3600).unwrap();
    assert_eq!(t2.at, t1.at + 12 * 3600);
    assert_eq!(t2.delay_secs, 0);
}

#[test]
fn delay_is_zero_once_passed() {
    assert_eq!(delay_secs_until(10, 25), 15);
    assert_eq!(delay_secs_until(25, 10), 0);
    assert_eq!(delay_secs_until(i64::MIN, i64::MAX), u64::MAX);
}

#[test]
fn bad_expression_gives_no_trigger() {
    let mut s = Scheduler::starting_at(JAN_1_2024);
    assert_eq!(s.next_trigger("not cron", JAN_1_2024), None);
    assert_eq!(s.cursor, JAN_1_2024);
}

#[test]
fn no_trigger_past_the_last_searched_year() {
    let mut s = Scheduler::starting_at(SCHEDULE_END - 1);
    assert_eq!(s.next_trigger("0 0 0,12 * * * *", SCHEDULE_END - 1), None);
    let mut s = Scheduler::starting_at(SCHEDULE_END - 86_400);
    let t = s.next_trigger("0 0 0,12 * * * *", 0).unwrap();
    assert_eq!(t.at, SCHEDULE_END - 43_200);
}
