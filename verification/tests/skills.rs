use std::path::PathBuf;
use std::time::{SystemTime, UNIX_EPOCH};

use fikuthy::skills::{
    apply_usage, create_skill_from_task, create_skill_from_task_at, CompletedStep, CurationAction,
    SkillCurator, SkillLifecycle, SkillSource, SkillStore,
};
use fikuthy::time::Timestamp;

fn now() -> Timestamp {
    let d = SystemTime::now().duration_since(UNIX_EPOCH).unwrap();
    Timestamp::new(d.as_secs() as i64, d.subsec_nanos()).unwrap()
}

fn days_before(t: Timestamp, days: i64) -> Timestamp {
    Timestamp::new(t.secs() - days * 86_400, t.nanos()).unwrap()
}

fn step(tool: &str, target: &str) -> CompletedStep {
    CompletedStep { tool: tool.into(), target: target.into(), success: true }
}

#[test]
fn skill_lifecycle_transitions() {
    let store = SkillStore::new(PathBuf::from("skills"));

    let mut skill = create_skill_from_task(
        "list files in workspace",
        &[CompletedStep {
            tool: "list_directory".into(),
            target: ".".into(),
            success: true,
        }],
        "test-session",
    );
    assert_eq!(skill.lifecycle, SkillLifecycle::Draft);

    // Record successful usage — should auto-promote to Active.
    store.record_usage(&mut skill, true);
    assert_eq!(skill.lifecycle, SkillLifecycle::Active);
    assert_eq!(skill.use_count, 1);
    assert_eq!(skill.success_count, 1);

    // Record more successes — should promote to Proven after 3.
    store.record_usage(&mut skill, true);
    store.record_usage(&mut skill, true);
    assert_eq!(skill.lifecycle, SkillLifecycle::Proven);
}

#[test]
fn curator_detects_stale_skills() {
    let curator = SkillCurator::new(PathBuf::from("skills"));

    let mut skill = create_skill_from_task(
        "old task",
        &[CompletedStep {
            tool: "read_file".into(),
            target: "x".into(),
            success: true,
        }],
        "session-old",
    );
    skill.lifecycle = SkillLifecycle::Active;
    skill.last_used = Some(days_before(now(), 35));

    let actions = curator.curate(std::slice::from_ref(&skill));
    assert!(!actions.is_empty());
    match &actions[0] {
        CurationAction::MarkStale { skill_id, .. } => assert_eq!(skill_id, &skill.id),
        _ => panic!("expected MarkStale action"),
    }
}

#[test]
fn created_skill_fields() {
    let t1 = Timestamp::new(100, 0).unwrap();
    let t2 = Timestamp::new(101, 0).unwrap();
    let s = create_skill_from_task_at(
        "copy a file",
        &[step("read_file", "a.txt"), step("write_file", "b.txt")],
        "sess",
        "deadbeef-0000-4000-8000-000000000000",
        t1,
        t2,
    );
    assert_eq!(s.id, "agent.deadbeef");
    assert_eq!(s.name, "Auto: copy a file");
    assert_eq!(s.description, "Auto-generated skill from task: copy a file");
    assert_eq!(s.category, "agent-created");
    assert_eq!(s.version, "0.1.0");
    assert_eq!(s.lifecycle, SkillLifecycle::Draft);
    assert_eq!(s.tools, vec!["read_file".to_string(), "write_file".to_string()]);
    assert_eq!(s.permissions, vec!["workspace.read".to_string()]);
    assert_eq!(
        s.prompt_template,
        "Execute the following task using the same tool sequence:\ncopy a file\n\nSteps:\n1. read_file \u{2192} a.txt\n2. write_file \u{2192} b.txt"
    );
    assert_eq!(s.success_criteria, "All steps complete without error");
    assert_eq!(s.tags, vec!["auto-generated".to_string(), "agent-created".to_string()]);
    assert_eq!(s.created_at, t1);
    assert_eq!(s.updated_at, t2);
    assert!(s.last_used.is_none());
    assert_eq!((s.use_count, s.success_count, s.failure_count), (0, 0, 0));
    match &s.source {
        SkillSource::AgentCreated { session_id, task } => {
            assert_eq!(session_id, "sess");
            assert_eq!(task, "copy a file");
        }
        other => panic!("unexpected {:?}", other),
    }
}

#[test]
fn long_task_name_is_cut_at_fifty_chars() {
    let t = Timestamp::new(0, 0).unwrap();
    let task = "\u{e9}".repeat(60);
    let s = create_skill_from_task_at(&task, &[], "s", "abcdef01", t, t);
    assert_eq!(s.name, format!("Auto: {}", "\u{e9}".repeat(50)));
    assert!(s.prompt_template.ends_with("\n\nSteps:\n"));
    assert!(s.tools.is_empty());
}

#[test]
fn random_skill_id_form() {
    let s = create_skill_from_task("t", &[], "s");
    assert!(s.id.starts_with("agent."));
    assert_eq!(s.id.len(), 14);
}

#[test]
fn failures_count_and_do_not_promote() {
    let t = Timestamp::new(10, 0).unwrap();
    let mut s = create_skill_from_task_at("t", &[], "s", "abcdef01", t, t);
    let used = Timestamp::new(20, 7).unwrap();
    let upd = Timestamp::new(21, 0).unwrap();
    apply_usage(&mut s, false, used, upd);
    assert_eq!(s.lifecycle, SkillLifecycle::Draft);
    assert_eq!((s.use_count, s.success_count, s.failure_count), (1, 0, 1));
    assert_eq!(s.last_used, Some(used));
    assert_eq!(s.updated_at, upd);
    assert_eq!(s.created_at, t);
    // Stale skills stay stale whatever the outcome.
    s.lifecycle = SkillLifecycle::Stale;
    apply_usage(&mut s, true, used, upd);
    assert_eq!(s.lifecycle, SkillLifecycle::Stale);
    assert_eq!(s.use_count, s.success_count + s.failure_count);
}

#[test]
fn curation_pass_actions() {
    let curator = SkillCurator::new(PathBuf::from("skills"));
    let now = Timestamp::new(1_000_000_000, 0).unwrap();
    let t = Timestamp::new(0, 0).unwrap();
    let mk = |id: &str, l: SkillLifecycle, last: Option<i64>, successes: u32| {
        let mut s = create_skill_from_task_at("t", &[], "s", "abcdef01", t, t);
        s.id = id.to_string();
        s.lifecycle = l;
        s.last_used = last.map(|d| days_before(now, d));
        s.success_count = successes;
        s
    };
    let skills = vec![
        mk("a", SkillLifecycle::Active, Some(29), 0),
        mk("b", SkillLifecycle::Active, Some(30), 0),
        mk("c", SkillLifecycle::Proven, Some(90), 0),
        mk("d", SkillLifecycle::Stale, Some(89), 0),
        mk("e", SkillLifecycle::Stale, Some(120), 0),
        mk("f", SkillLifecycle::Draft, None, 2),
        mk("g", SkillLifecycle::Draft, None, 0),
        mk("h", SkillLifecycle::Archived, Some(500), 9),
        mk("i", SkillLifecycle::Active, None, 0),
    ];
    let actions = curator.curate_at(&skills, now);
    let got: Vec<(String, String, String)> = actions
        .iter()
        .map(|a| match a {
            CurationAction::Activate { skill_id, reason } => ("activate".into(), skill_id.clone(), reason.clone()),
            CurationAction::MarkStale { skill_id, reason } => ("stale".into(), skill_id.clone(), reason.clone()),
            CurationAction::Archive { skill_id, reason } => ("archive".into(), skill_id.clone(), reason.clone()),
        })
        .collect();
    let want: Vec<(String, String, String)> = vec![
        ("stale".into(), "b".into(), "unused for 30 days".into()),
        ("archive".into(), "c".into(), "unused for 90 days".into()),
        ("archive".into(), "e".into(), "stale for 120 days".into()),
        ("activate".into(), "f".into(), "has successful uses".into()),
    ];
    assert_eq!(got, want);
}

#[test]
fn days_round_toward_zero() {
    let now = Timestamp::new(100 * 86_400, 0).unwrap();
    // One nanosecond short of thirty days is twenty-nine whole days.
    let almost = Timestamp::new(70 * 86_400, 1).unwrap();
    assert_eq!(fikuthy::time::days_between(&now, &almost), 29);
    // A last use in the future gives a negative count.
    let later = Timestamp::new(102 * 86_400, 1).unwrap();
    assert_eq!(fikuthy::time::days_between(&now, &later), -2);
}

#[test]
fn skill_file_name() {
    assert_eq!(SkillStore::file_name("agent.1234abcd"), "agent.1234abcd.json");
    let store = SkillStore::new(PathBuf::from("d"));
    assert_eq!(store.dir(), &PathBuf::from("d"));
}

#[test]
fn timestamp_bounds() {
    assert!(Timestamp::new(0, 1_000_000_000).is_none());
    assert!(Timestamp::new(i64::MAX, 0).is_none());
    assert!(Timestamp::new(-1, 999_999_999).is_some());
    // chrono's first and last seconds.
    assert!(Timestamp::new(-8_334_601_228_800, 0).is_some());
    assert!(Timestamp::new(-8_334_601_228_801, 999_999_999).is_none());
    assert!(Timestamp::new(8_210_266_876_799, 999_999_999).is_some());
    assert!(Timestamp::new(8_210_266_876_800, 0).is_none());
}

#[test]
fn used_skill_is_not_stale_at_time_of_use() {
    let curator = SkillCurator::new(PathBuf::from("skills"));
    let t = Timestamp::new(0, 0).unwrap();
    let mut s = create_skill_from_task_at("t", &[], "s", "abcdef01", t, t);
    s.lifecycle = SkillLifecycle::Active;
    s.last_used = Some(t);
    let used = Timestamp::new(400 * 86_400, 0).unwrap();
    // Long unused: archived.
    assert!(matches!(curator.curate_at(std::slice::from_ref(&s), used)[0], CurationAction::Archive { .. }));
    apply_usage(&mut s, true, used, used);
    assert!(curator.curate_at(std::slice::from_ref(&s), used).is_empty());
}

#[test]
fn manifest_clone_keeps_fields() {
    let t = Timestamp::new(3, 4).unwrap();
    let s = create_skill_from_task_at("t", &[step("a", "b")], "s", "abcdef01", t, t);
    let c = s.clone();
    assert_eq!(c.id, s.id);
    assert_eq!(c.tools, s.tools);
    assert_eq!(c.prompt_template, s.prompt_template);
    assert_eq!(c.created_at, s.created_at);
}

#[test]
fn curation_grows_more_severe_with_time() {
    let curator = SkillCurator::new(PathBuf::from("skills"));
    let t = Timestamp::new(0, 0).unwrap();
    let mut s = create_skill_from_task_at("t", &[], "s", "abcdef01", t, t);
    s.lifecycle = SkillLifecycle::Proven;
    s.last_used = Some(t);
    let kinds: Vec<u8> = [0i64, 29, 30, 89, 90, 365]
        .iter()
        .map(|d| {
            let now = Timestamp::new(d * 86_400, 0).unwrap();
            match curator.curate_at(std::slice::from_ref(&s), now).first() {
                None => 0,
                Some(CurationAction::MarkStale { .. }) => 1,
                Some(CurationAction::Archive { .. }) => 2,
                Some(CurationAction::Activate { .. }) => 9,
            }
        })
        .collect();
    assert_eq!(kinds, vec![0, 0, 1, 1, 2, 2]);
}

use fikuthy::skills::apply_curation;

#[test]
fn applying_a_pass_moves_skills() {
    let curator = SkillCurator::new(PathBuf::from("skills"));
    let now = Timestamp::new(1_000_000_000, 0).unwrap();
    let t = Timestamp::new(0, 0).unwrap();
    let mk = |id: &str, l: SkillLifecycle, days: Option<i64>, successes: u32| {
        let mut s = create_skill_from_task_at("t", &[], "s", "abcdef01", t, t);
        s.id = id.to_string();
        s.lifecycle = l;
        s.last_used = days.map(|d| days_before(now, d));
        s.success_count = successes;
        s
    };
    let mut skills = vec![
        mk("a", SkillLifecycle::Active, Some(1), 0),
        mk("b", SkillLifecycle::Active, Some(40), 0),
        mk("c", SkillLifecycle::Stale, Some(100), 0),
        mk("d", SkillLifecycle::Draft, None, 1),
        mk("e", SkillLifecycle::Archived, Some(500), 0),
    ];
    let actions = curator.curate_at(&skills, now);
    assert_eq!(actions.len(), 3);
    apply_curation(&mut skills, &actions);
    let states: Vec<SkillLifecycle> = skills.iter().map(|s| s.lifecycle).collect();
    assert_eq!(
        states,
        vec![
            SkillLifecycle::Active,
            SkillLifecycle::Stale,
            SkillLifecycle::Archived,
            SkillLifecycle::Active,
            SkillLifecycle::Archived,
        ]
    );
    assert_eq!(skills[1].id, "b");
    assert_eq!(skills[1].last_used, Some(days_before(now, 40)));
    // A second pass over the applied states proposes nothing more for b, c, d or e.
    let again = curator.curate_at(&skills, now);
    assert!(again.is_empty());
}
