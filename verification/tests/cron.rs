use std::path::PathBuf;

use fikuthy::cron::{
    create_job, create_job_at, parse_interval, parse_natural_schedule, CronError, CronExpression,
    CronStore,
};
use fikuthy::time::Timestamp;

#[test]
fn parse_cron_expression() {
    let expr = CronExpression::parse("*/5 * * * *").unwrap();
    assert_eq!(expr.minute, "*/5");
    assert_eq!(expr.hour, "*");
}

#[test]
fn parse_natural_language() {
    let expr = parse_natural_schedule("every 30 minutes").unwrap();
    assert_eq!(expr.minute, "*/30");

    let expr = parse_natural_schedule("daily").unwrap();
    assert_eq!(expr.hour, "9");

    let expr = parse_natural_schedule("every hour").unwrap();
    assert_eq!(expr.minute, "0");
    assert_eq!(expr.hour, "*");

    let expr = parse_natural_schedule("weekly").unwrap();
    assert_eq!(expr.day_of_week, "1");
}

#[test]
fn cron_store_round_trip() {
    let store = CronStore::new(PathBuf::from("cron.json"));
    let mut jobs = Vec::new();

    let job = create_job("test", "every hour", "check status").unwrap();
    let id = job.id.clone();
    store.add(&mut jobs, job);

    let loaded = store.get(jobs.clone(), &id).unwrap();
    assert_eq!(loaded.name, "test");
    assert_eq!(loaded.prompt, "check status");
    assert!(loaded.enabled);

    assert_eq!(jobs.len(), 1);

    store.remove(&mut jobs, &id);
    assert!(jobs.is_empty());
}

fn fields(e: &CronExpression) -> [String; 5] {
    [
        e.minute.clone(),
        e.hour.clone(),
        e.day_of_month.clone(),
        e.month.clone(),
        e.day_of_week.clone(),
    ]
}

#[test]
fn parse_splits_on_any_white_space() {
    let e = CronExpression::parse("  0\t9 \n1  *\u{3000}* ").unwrap();
    assert_eq!(fields(&e), ["0", "9", "1", "*", "*"]);
}

#[test]
fn parse_rejects_wrong_field_count() {
    match CronExpression::parse("* * * *") {
        Err(CronError::FieldCount(n)) => assert_eq!(n, 4),
        other => panic!("unexpected {:?}", other),
    }
    match CronExpression::parse("") {
        Err(CronError::FieldCount(n)) => assert_eq!(n, 0),
        other => panic!("unexpected {:?}", other),
    }
    match CronExpression::parse("1 2 3 4 5 6") {
        Err(CronError::FieldCount(n)) => assert_eq!(n, 6),
        other => panic!("unexpected {:?}", other),
    }
}

#[test]
fn to_string_then_parse_round_trips() {
    let e = CronExpression::parse("*/15   0-6 1,15 * MON").unwrap();
    let text = e.to_string();
    assert_eq!(text, "*/15 0-6 1,15 * MON");
    let back = CronExpression::parse(&text).unwrap();
    assert_eq!(fields(&back), fields(&e));
}

#[test]
fn natural_patterns() {
    let cases: [(&str, [&str; 5]); 12] = [
        ("every minute", ["*", "*", "*", "*", "*"]),
        ("  * * * * *  ", ["*", "*", "*", "*", "*"]),
        ("Run HOURLY please", ["0", "*", "*", "*", "*"]),
        ("every day", ["0", "9", "*", "*", "*"]),
        ("every morning", ["0", "9", "*", "*", "*"]),
        ("Every Night", ["0", "22", "*", "*", "*"]),
        ("nightly", ["0", "22", "*", "*", "*"]),
        ("every week", ["0", "9", "*", "*", "1"]),
        ("monthly", ["0", "9", "1", "*", "*"]),
        ("every month", ["0", "9", "1", "*", "*"]),
        ("every 2 hours", ["0", "*/2", "*", "*", "*"]),
        ("every 3 days", ["0", "0", "*/3", "*", "*"]),
    ];
    for (input, want) in cases.iter() {
        let e = parse_natural_schedule(input).unwrap();
        assert_eq!(fields(&e), *want, "input {:?}", input);
    }
}

#[test]
fn interval_limits() {
    assert!(parse_interval("every 0 minutes").is_none());
    assert!(parse_interval("every 60 mins").is_none());
    assert_eq!(parse_interval("every 59 min").unwrap().minute, "*/59");
    assert!(parse_interval("every 24 hrs").is_none());
    assert_eq!(parse_interval("every 23 hr").unwrap().hour, "*/23");
    assert!(parse_interval("every 32 days").is_none());
    assert_eq!(parse_interval("every 31 day").unwrap().day_of_month, "*/31");
    assert_eq!(parse_interval("every +7 minutes").unwrap().minute, "*/7");
    assert_eq!(parse_interval("every 007 minutes").unwrap().minute, "*/7");
    // A number or unit that is not understood moves on to the next "every".
    assert_eq!(parse_interval("every x minutes every 5 hours").unwrap().hour, "*/5");
    assert_eq!(parse_interval("every 5 weeks every 6 minutes").unwrap().minute, "*/6");
    // An out-of-range count ends the search.
    assert!(parse_interval("every 99 minutes every 5 minutes").is_none());
    assert!(parse_interval("every 4294967296 minutes").is_none());
    assert!(parse_interval("every 5").is_none());
}

#[test]
fn natural_falls_back_to_raw_expression() {
    let e = parse_natural_schedule("15 3 * * 0").unwrap();
    assert_eq!(fields(&e), ["15", "3", "*", "*", "0"]);
    match parse_natural_schedule("whenever you like") {
        Err(CronError::FieldCount(n)) => assert_eq!(n, 3),
        other => panic!("unexpected {:?}", other),
    }
}

#[test]
fn create_job_at_fills_fields() {
    let t = Timestamp::new(1_700_000_000, 5).unwrap();
    let job = create_job_at("n", "every 10 minutes", "p", "0123abcd-ffff-4fff-8fff-ffffffffffff", t).unwrap();
    assert_eq!(job.id, "0123abcd");
    assert_eq!(job.name, "n");
    assert_eq!(job.prompt, "p");
    assert_eq!(job.schedule.minute, "*/10");
    assert!(job.enabled);
    assert_eq!(job.created_at, t);
    assert!(job.last_run.is_none());
    assert!(job.next_run.is_none());
    assert_eq!(job.run_count, 0);
    assert!(job.delivery_target.is_none());
    assert!(create_job_at("n", "bad", "p", "0123abcd", t).is_err());
}

#[test]
fn create_job_uses_uuid_prefix() {
    let job = create_job("a", "daily", "b").unwrap();
    assert_eq!(job.id.len(), 8);
    assert!(job.id.chars().all(|c| c.is_ascii_hexdigit() && !c.is_ascii_uppercase()));
}

#[test]
fn store_get_update_remove() {
    let store = CronStore::new(PathBuf::from("jobs.json"));
    let t = Timestamp::new(0, 0).unwrap();
    let a = create_job_at("a", "daily", "pa", "aaaaaaaa", t).unwrap();
    let b = create_job_at("b", "weekly", "pb", "bbbbbbbb", t).unwrap();
    let b2 = create_job_at("b-second", "hourly", "pb2", "bbbbbbbb", t).unwrap();
    let mut jobs = Vec::new();
    store.add(&mut jobs, a);
    store.add(&mut jobs, b);
    store.add(&mut jobs, b2);
    // The first job of an id is the one found.
    assert_eq!(store.get(jobs.clone(), "bbbbbbbb").unwrap().name, "b");
    match store.get(jobs.clone(), "cccccccc") {
        Err(CronError::NotFound(id)) => assert_eq!(id, "cccccccc"),
        other => panic!("unexpected {:?}", other),
    }
    // Update replaces the first job of the id only.
    let mut changed = create_job_at("b-new", "monthly", "pbn", "bbbbbbbb", t).unwrap();
    changed.run_count = 3;
    store.update(&mut jobs, &changed);
    assert_eq!(jobs.len(), 3);
    assert_eq!(jobs[1].name, "b-new");
    assert_eq!(jobs[1].run_count, 3);
    assert_eq!(jobs[2].name, "b-second");
    // Update of an unknown id changes nothing.
    let other = create_job_at("z", "daily", "pz", "zzzzzzzz", t).unwrap();
    store.update(&mut jobs, &other);
    assert_eq!(jobs.len(), 3);
    // Remove drops every job of the id.
    store.remove(&mut jobs, "bbbbbbbb");
    assert_eq!(jobs.len(), 1);
    assert_eq!(jobs[0].name, "a");
    assert!(store.get(jobs.clone(), "bbbbbbbb").is_err());
    assert_eq!(store.path(), &PathBuf::from("jobs.json"));
}

use fikuthy::cron::schedule_from_lowered;

#[test]
fn schedule_from_given_lowercase_form() {
    // The phrase is looked for in the given lowercase form; the raw fallback reads the input.
    let e = schedule_from_lowered("every night", "ignored input text here").unwrap();
    assert_eq!(fields(&e), ["0", "22", "*", "*", "*"]);
    let e = schedule_from_lowered("no phrase", "1 2 3 4 5").unwrap();
    assert_eq!(fields(&e), ["1", "2", "3", "4", "5"]);
    let e = schedule_from_lowered("every 4 hours", "EVERY 4 HOURS").unwrap();
    assert_eq!(e.hour, "*/4");
    assert!(schedule_from_lowered("no phrase", "EVERY 4 HOURS").is_err());
}

#[test]
fn natural_schedules_print_and_reparse() {
    for input in ["every 45 minutes", "nightly", "monthly", "5 4 * * 2", "every 12 hrs"] {
        let e = parse_natural_schedule(input).unwrap();
        let back = CronExpression::parse(&e.to_string()).unwrap();
        assert_eq!(fields(&back), fields(&e));
    }
}
