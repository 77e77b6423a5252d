use vstd::prelude::*;

use std::path::PathBuf;

use crate::cron::ascii_prefix;
use crate::ident::{is_v4_uuid_text, new_v4_text};
use crate::text::{decimal, decimal_string, str_eq};
use crate::time::{days_between, now, Timestamp};

verus! {

/// Skill lifecycle states.
#[derive(Debug, Clone, Copy, PartialEq, Eq, Structural)]
pub enum SkillLifecycle {
    /// Just created, not yet validated.
    Draft,
    /// Validated and available for use.
    Active,
    /// Used successfully at least once.
    Proven,
    /// Not used recently; curator may archive.
    Stale,
    /// Removed from active use but kept for rollback.
    Archived,
}

/// Where a skill came from.
#[derive(Debug)]
pub enum SkillSource {
    /// Built-in skill shipped with fikuthy.
    Builtin,
    /// Created by the agent from a successful task.
    AgentCreated { session_id: String, task: String },
    /// Imported from Skills Hub or external source.
    Imported { url: String },
    /// User-authored skill.
    User,
}

impl Clone for SkillSource {
    fn clone(&self) -> (r: Self)
        ensures
            r == *self,
    {
        match self {
            SkillSource::Builtin => SkillSource::Builtin,
            SkillSource::AgentCreated { session_id, task } => SkillSource::AgentCreated {
                session_id: session_id.clone(),
                task: task.clone(),
            },
            SkillSource::Imported { url } => SkillSource::Imported { url: url.clone() },
            SkillSource::User => SkillSource::User,
        }
    }
}

/// A skill created by the agent from a successful autonomous run.
#[derive(Debug)]
pub struct SkillManifest {
    pub id: String,
    pub name: String,
    pub description: String,
    pub category: String,
    pub version: String,
    pub lifecycle: SkillLifecycle,
    pub tools: Vec<String>,
    pub permissions: Vec<String>,
    pub prompt_template: String,
    pub success_criteria: String,
    pub tags: Vec<String>,
    pub created_at: Timestamp,
    pub updated_at: Timestamp,
    pub last_used: Option<Timestamp>,
    pub use_count: u32,
    pub success_count: u32,
    pub failure_count: u32,
    pub source: SkillSource,
}

/// `b` holds what `a` holds: the same fields, with vectors of the same strings.
pub open spec fn same_manifest(a: SkillManifest, b: SkillManifest) -> bool {
    &&& a.id == b.id
    &&& a.name == b.name
    &&& a.description == b.description
    &&& a.category == b.category
    &&& a.version == b.version
    &&& a.lifecycle == b.lifecycle
    &&& a.tools@ == b.tools@
    &&& a.permissions@ == b.permissions@
    &&& a.prompt_template == b.prompt_template
    &&& a.success_criteria == b.success_criteria
    &&& a.tags@ == b.tags@
    &&& a.created_at == b.created_at
    &&& a.updated_at == b.updated_at
    &&& a.last_used == b.last_used
    &&& a.use_count == b.use_count
    &&& a.success_count == b.success_count
    &&& a.failure_count == b.failure_count
    &&& a.source == b.source
}

fn clone_strings(v: &Vec<String>) -> (r: Vec<String>)
    ensures
        r@ == v@,
{
    let mut out: Vec<String> = Vec::new();
    let n = v.len();
    let mut i: usize = 0;
    while i < n
        invariant
            n == v@.len(),
            i <= n,
            out@ == v@.take(i as int),
        decreases n - i,
    {
        out.push(v[i].clone());
        i = i + 1;
        assert(out@ =~= v@.take(i as int));
    }
    assert(v@.take(n as int) =~= v@);
    out
}

impl Clone for SkillManifest {
    fn clone(&self) -> (r: Self)
        ensures
            same_manifest(r, *self),
    {
        SkillManifest {
            id: self.id.clone(),
            name: self.name.clone(),
            description: self.description.clone(),
            category: self.category.clone(),
            version: self.version.clone(),
            lifecycle: self.lifecycle,
            tools: clone_strings(&self.tools),
            permissions: clone_strings(&self.permissions),
            prompt_template: self.prompt_template.clone(),
            success_criteria: self.success_criteria.clone(),
            tags: clone_strings(&self.tags),
            created_at: self.created_at,
            updated_at: self.updated_at,
            last_used: self.last_used,
            use_count: self.use_count,
            success_count: self.success_count,
            failure_count: self.failure_count,
            source: self.source.clone(),
        }
    }
}

/// Tracks skill usage for the learning loop.
#[derive(Debug)]
pub struct SkillUsageRecord {
    pub skill_id: String,
    pub session_id: String,
    pub timestamp: Timestamp,
    pub success: bool,
    pub duration_ms: u64,
    pub output_summary: String,
}

/// The lifecycle after a recorded use, given the success count that the use left: a draft
/// with a success becomes active, and an active skill with three or more successes becomes
/// proven.
pub open spec fn promoted(l: SkillLifecycle, success_count: int) -> SkillLifecycle {
    let l1 = if l == SkillLifecycle::Draft && success_count > 0 {
        SkillLifecycle::Active
    } else {
        l
    };
    if l1 == SkillLifecycle::Active && success_count >= 3 {
        SkillLifecycle::Proven
    } else {
        l1
    }
}

/// The skill after one recorded use: counters raised, last use and update times set, and the
/// lifecycle promoted; nothing else changes.
pub open spec fn after_usage(
    s: SkillManifest,
    success: bool,
    last_used: Timestamp,
    updated_at: Timestamp,
) -> SkillManifest {
    let successes = if success { s.success_count + 1 } else { s.success_count as int };
    SkillManifest {
        use_count: (s.use_count + 1) as u32,
        success_count: successes as u32,
        failure_count: if success { s.failure_count } else { (s.failure_count + 1) as u32 },
        last_used: Some(last_used),
        updated_at,
        lifecycle: promoted(s.lifecycle, successes),
        ..s
    }
}

/// The counters that a recorded use raises are below `u32::MAX`.
pub open spec fn usage_fits(s: SkillManifest, success: bool) -> bool {
    &&& s.use_count < u32::MAX
    &&& success ==> s.success_count < u32::MAX
    &&& !success ==> s.failure_count < u32::MAX
}

/// Whether one more use of `skill` can be recorded: the counters it raises are below
/// `u32::MAX`.
pub fn can_record_usage(skill: &SkillManifest, success: bool) -> (r: bool)
    ensures
        r == usage_fits(*skill, success),
{
    skill.use_count < u32::MAX && (if success {
        skill.success_count < u32::MAX
    } else {
        skill.failure_count < u32::MAX
    })
}

/// Records one use of `skill` at the given instants.
pub fn apply_usage(skill: &mut SkillManifest, success: bool, last_used: Timestamp, updated_at: Timestamp)
    requires
        usage_fits(*old(skill), success),
    ensures
        *final(skill) == after_usage(*old(skill), success, last_used, updated_at),
{
    skill.use_count += 1;
    if success {
        skill.success_count += 1;
    } else {
        skill.failure_count += 1;
    }
    skill.last_used = Some(last_used);
    skill.updated_at = updated_at;
    if skill.lifecycle == SkillLifecycle::Draft && skill.success_count > 0 {
        skill.lifecycle = SkillLifecycle::Active;
    }
    if skill.lifecycle == SkillLifecycle::Active && skill.success_count >= 3 {
        skill.lifecycle = SkillLifecycle::Proven;
    }
}

/// Skill store: names skill files and applies recorded uses. Where the files live (the
/// directory `dir`) is the caller's concern.
pub struct SkillStore {
    dir: PathBuf,
}

impl SkillStore {
    pub closed spec fn spec_dir(&self) -> PathBuf {
        self.dir
    }

    pub fn new(dir: PathBuf) -> (r: Self)
        ensures
            r.spec_dir() == dir,
    {
        Self { dir }
    }

    /// The directory that holds the skills.
    pub fn dir(&self) -> (r: &PathBuf)
        ensures
            *r == self.spec_dir(),
    {
        &self.dir
    }

    /// The name of the file that holds the skill `id`: the id followed by `.json`.
    pub fn file_name(id: &str) -> (r: String)
        ensures
            r@ == id@ + ".json"@,
    {
        let mut s = String::from_str(id);
        s.append(".json");
        s
    }

    /// Records one use of a loaded skill now: counters, last use, update time and
    /// lifecycle promotion, as `after_usage` states, at instants read from the clock.
    pub fn record_usage(&self, skill: &mut SkillManifest, success: bool)
        requires
            usage_fits(*old(skill), success),
        ensures
            exists|t1: Timestamp, t2: Timestamp|
                *final(skill) == #[trigger] after_usage(*old(skill), success, t1, t2),
    {
        let last_used = now();
        let updated_at = now();
        apply_usage(skill, success, last_used, updated_at);
    }
}


/// An action that a curation pass proposes for one skill.
#[derive(Debug)]
pub enum CurationAction {
    Activate { skill_id: String, reason: String },
    MarkStale { skill_id: String, reason: String },
    Archive { skill_id: String, reason: String },
}

/// A curation action with its texts as character sequences.
pub enum CurationSpec {
    Activate { skill_id: Seq<char>, reason: Seq<char> },
    MarkStale { skill_id: Seq<char>, reason: Seq<char> },
    Archive { skill_id: Seq<char>, reason: Seq<char> },
}

impl View for CurationAction {
    type V = CurationSpec;

    open spec fn view(&self) -> CurationSpec {
        match self {
            CurationAction::Activate { skill_id, reason } => CurationSpec::Activate {
                skill_id: skill_id@,
                reason: reason@,
            },
            CurationAction::MarkStale { skill_id, reason } => CurationSpec::MarkStale {
                skill_id: skill_id@,
                reason: reason@,
            },
            CurationAction::Archive { skill_id, reason } => CurationSpec::Archive {
                skill_id: skill_id@,
                reason: reason@,
            },
        }
    }
}

/// The curator reviews skills periodically and manages their lifecycle.
pub struct SkillCurator {
    skills_dir: PathBuf,
    stale_threshold_days: i64,
    archive_threshold_days: i64,
}

/// "<prefix><days> days".
pub open spec fn days_reason(prefix: Seq<char>, days: int) -> Seq<char> {
    prefix + decimal(days as nat) + " days"@
}

/// The action that a curation pass at `now` proposes for `skill`, given the stale and
/// archive thresholds in days.
pub open spec fn curation_for(
    stale: int,
    archive: int,
    skill: SkillManifest,
    now: Timestamp,
) -> Option<CurationSpec> {
    match skill.lifecycle {
        SkillLifecycle::Active | SkillLifecycle::Proven => match skill.last_used {
            Some(t) => {
                let d = now.days_since(t);
                if d >= archive {
                    Some(CurationSpec::Archive { skill_id: skill.id@, reason: days_reason("unused for "@, d) })
                } else if d >= stale {
                    Some(CurationSpec::MarkStale { skill_id: skill.id@, reason: days_reason("unused for "@, d) })
                } else {
                    None
                }
            },
            None => None,
        },
        SkillLifecycle::Stale => match skill.last_used {
            Some(t) => {
                let d = now.days_since(t);
                if d >= archive {
                    Some(CurationSpec::Archive { skill_id: skill.id@, reason: days_reason("stale for "@, d) })
                } else {
                    None
                }
            },
            None => None,
        },
        SkillLifecycle::Draft => if skill.success_count > 0 {
            Some(CurationSpec::Activate { skill_id: skill.id@, reason: "has successful uses"@ })
        } else {
            None
        },
        SkillLifecycle::Archived => None,
    }
}

/// The actions of a curation pass over `skills`, in order, at most one per skill.
pub open spec fn curation_actions(
    stale: int,
    archive: int,
    skills: Seq<SkillManifest>,
    now: Timestamp,
) -> Seq<CurationSpec>
    decreases skills.len(),
{
    if skills.len() == 0 {
        seq![]
    } else {
        let rest = curation_actions(stale, archive, skills.drop_last(), now);
        match curation_for(stale, archive, skills.last(), now) {
            Some(a) => rest.push(a),
            None => rest,
        }
    }
}

pub open spec fn action_views(v: Seq<CurationAction>) -> Seq<CurationSpec> {
    v.map_values(|a: CurationAction| a@)
}

impl SkillCurator {
    #[verifier::type_invariant]
    spec fn inv(self) -> bool {
        0 <= self.stale_threshold_days && 0 <= self.archive_threshold_days
    }

    /// Days without use after which an active or proven skill is marked stale.
    pub closed spec fn stale_days(self) -> int {
        self.stale_threshold_days as int
    }

    /// Days without use after which a skill is archived.
    pub closed spec fn archive_days(self) -> int {
        self.archive_threshold_days as int
    }

    pub closed spec fn spec_skills_dir(self) -> PathBuf {
        self.skills_dir
    }

    pub fn new(skills_dir: PathBuf) -> (r: Self)
        ensures
            r.spec_skills_dir() == skills_dir,
            r.stale_days() == 30,
            r.archive_days() == 90,
    {
        Self { skills_dir, stale_threshold_days: 30, archive_threshold_days: 90 }
    }

    /// The directory whose skills a curation pass reviews.
    pub fn skills_dir(&self) -> (r: &PathBuf)
        ensures
            *r == self.spec_skills_dir(),
    {
        &self.skills_dir
    }

    fn action_for(&self, skill: &SkillManifest, now: Timestamp) -> (r: Option<CurationAction>)
        ensures
            r is Some <==> curation_for(self.stale_days(), self.archive_days(), *skill, now) is Some,
            r matches Some(a) ==> a@ == curation_for(self.stale_days(), self.archive_days(), *skill, now).unwrap(),
    {
        proof {
            use_type_invariant(self);
        }
        match skill.lifecycle {
            SkillLifecycle::Active | SkillLifecycle::Proven => {
                if let Some(last_used) = skill.last_used {
                    let days_since = days_between(&now, &last_used);
                    if days_since >= self.archive_threshold_days {
                        return Some(CurationAction::Archive {
                            skill_id: skill.id.clone(),
                            reason: days_text("unused for ", days_since),
                        });
                    } else if days_since >= self.stale_threshold_days {
                        return Some(CurationAction::MarkStale {
                            skill_id: skill.id.clone(),
                            reason: days_text("unused for ", days_since),
                        });
                    }
                }
                None
            },
            SkillLifecycle::Stale => {
                if let Some(last_used) = skill.last_used {
                    let days_since = days_between(&now, &last_used);
                    if days_since >= self.archive_threshold_days {
                        return Some(CurationAction::Archive {
                            skill_id: skill.id.clone(),
                            reason: days_text("stale for ", days_since),
                        });
                    }
                }
                None
            },
            SkillLifecycle::Draft => {
                if skill.success_count > 0 {
                    Some(CurationAction::Activate {
                        skill_id: skill.id.clone(),
                        reason: String::from_str("has successful uses"),
                    })
                } else {
                    None
                }
            },
            SkillLifecycle::Archived => None,
        }
    }

    /// A curation pass over `skills` at the instant `now`: the actions that move skills
    /// through their lifecycle states.
    pub fn curate_at(&self, skills: &[SkillManifest], now: Timestamp) -> (r: Vec<CurationAction>)
        ensures
            action_views(r@) == curation_actions(self.stale_days(), self.archive_days(), skills@, now),
    {
        let mut actions: Vec<CurationAction> = Vec::new();
        let n = skills.len();
        let mut i: usize = 0;
        assert(skills@.take(0) =~= Seq::<SkillManifest>::empty());
        assert(action_views(actions@) =~= Seq::<CurationSpec>::empty());
        while i < n
            invariant
                n == skills@.len(),
                i <= n,
                action_views(actions@) == curation_actions(
                    self.stale_days(),
                    self.archive_days(),
                    skills@.take(i as int),
                    now,
                ),
            decreases n - i,
        {
            let ghost prev = actions@;
            assert(skills@.take(i + 1).drop_last() =~= skills@.take(i as int));
            assert(skills@.take(i + 1).last() == skills@[i as int]);
            match self.action_for(&skills[i], now) {
                Some(a) => {
                    actions.push(a);
                    assert(action_views(actions@) =~= action_views(prev).push(a@));
                },
                None => {},
            }
            i = i + 1;
        }
        assert(skills@.take(n as int) =~= skills@);
        actions
    }

    /// Run a curation pass over `skills` now. The instant is read from the clock and is left
    /// open; the actions are those of `curate_at` at that instant.
    pub fn curate(&self, skills: &[SkillManifest]) -> (r: Vec<CurationAction>)
        ensures
            exists|t: Timestamp|
                action_views(r@) == #[trigger] curation_actions(self.stale_days(), self.archive_days(), skills@, t),
    {
        let t = now();
        self.curate_at(skills, t)
    }
}

/// "<prefix><days> days" for a count of days that is not negative.
fn days_text(prefix: &str, days: i64) -> (r: String)
    requires
        days >= 0,
    ensures
        r@ == days_reason(prefix@, days as int),
{
    let mut s = String::from_str(prefix);
    let digits = decimal_string(days as u64);
    s.append(digits.as_str());
    s.append(" days");
    s
}


/// One step of a finished task: the tool used, its target, and whether it succeeded.
#[derive(Debug)]
pub struct CompletedStep {
    pub tool: String,
    pub target: String,
    pub success: bool,
}

/// "<n>. <tool> → <target>" for the step at position `i` (counted from zero).
pub open spec fn step_line(i: int, step: CompletedStep) -> Seq<char> {
    decimal((i + 1) as nat) + ". "@ + step.tool@ + " \u{2192} "@ + step.target@
}

/// The lines of the steps joined by newlines.
pub open spec fn steps_text(steps: Seq<CompletedStep>) -> Seq<char>
    decreases steps.len(),
{
    if steps.len() == 0 {
        seq![]
    } else if steps.len() == 1 {
        step_line(0, steps[0])
    } else {
        steps_text(steps.drop_last()) + "\n"@ + step_line(steps.len() - 1, steps.last())
    }
}

/// The prompt that replays a task with the same tool sequence.
pub open spec fn skill_prompt(task: Seq<char>, steps: Seq<CompletedStep>) -> Seq<char> {
    "Execute the following task using the same tool sequence:\n"@ + task + "\n\nSteps:\n"@
        + steps_text(steps)
}

/// At most the first fifty characters of `task`.
pub open spec fn task_head(task: Seq<char>) -> Seq<char> {
    if task.len() <= 50 {
        task
    } else {
        task.take(50)
    }
}

pub open spec fn string_views(v: Seq<String>) -> Seq<Seq<char>> {
    v.map_values(|s: String| s@)
}

/// The skill that `create_skill_from_task` makes of a task: a draft named after the task,
/// with the tools of the steps in order and a prompt that replays them, never used.
pub open spec fn is_task_skill(
    m: SkillManifest,
    id: Seq<char>,
    task: Seq<char>,
    steps: Seq<CompletedStep>,
    session_id: Seq<char>,
    created_at: Timestamp,
    updated_at: Timestamp,
) -> bool {
    &&& m.id@ == id
    &&& m.name@ == "Auto: "@ + task_head(task)
    &&& m.description@ == "Auto-generated skill from task: "@ + task
    &&& m.category@ == "agent-created"@
    &&& m.version@ == "0.1.0"@
    &&& m.lifecycle == SkillLifecycle::Draft
    &&& m.tools@ == steps.map_values(|s: CompletedStep| s.tool)
    &&& string_views(m.permissions@) == seq!["workspace.read"@]
    &&& m.prompt_template@ == skill_prompt(task, steps)
    &&& m.success_criteria@ == "All steps complete without error"@
    &&& string_views(m.tags@) == seq!["auto-generated"@, "agent-created"@]
    &&& m.created_at == created_at
    &&& m.updated_at == updated_at
    &&& m.last_used is None
    &&& m.use_count == 0
    &&& m.success_count == 0
    &&& m.failure_count == 0
    &&& m.source matches SkillSource::AgentCreated { session_id: sid, task: t }
    &&& sid@ == session_id
    &&& t@ == task
}

fn steps_prompt_text(steps: &[CompletedStep]) -> (r: String)
    ensures
        r@ == steps_text(steps@),
{
    let mut out = String::new();
    let n = steps.len();
    let mut i: usize = 0;
    assert(steps@.take(0) =~= Seq::<CompletedStep>::empty());
    while i < n
        invariant
            n == steps@.len(),
            i <= n,
            out@ == steps_text(steps@.take(i as int)),
        decreases n - i,
    {
        if i > 0 {
            out.append("\n");
        }
        let num = decimal_string(i as u64 + 1);
        out.append(num.as_str());
        out.append(". ");
        out.append(steps[i].tool.as_str());
        out.append(" \u{2192} ");
        out.append(steps[i].target.as_str());
        proof {
            let t = steps@.take(i + 1);
            assert(t.drop_last() =~= steps@.take(i as int));
            assert(t.last() == steps@[i as int]);
            if i == 0 {
                assert(t.len() == 1);
                assert(out@ =~= step_line(0, t[0]));
            } else {
                assert(out@ =~= steps_text(steps@.take(i as int)) + "\n"@ + step_line(i as int, steps@[i as int]));
            }
        }
        i = i + 1;
    }
    assert(steps@.take(n as int) =~= steps@);
    out
}

fn tools_of(steps: &[CompletedStep]) -> (r: Vec<String>)
    ensures
        r@ == steps@.map_values(|s: CompletedStep| s.tool),
{
    let mut out: Vec<String> = Vec::new();
    let n = steps.len();
    let mut i: usize = 0;
    while i < n
        invariant
            n == steps@.len(),
            i <= n,
            out@ == steps@.take(i as int).map_values(|s: CompletedStep| s.tool),
        decreases n - i,
    {
        out.push(steps[i].tool.clone());
        i = i + 1;
        assert(out@ =~= steps@.take(i as int).map_values(|s: CompletedStep| s.tool));
    }
    assert(steps@.take(n as int) =~= steps@);
    out
}

/// Auto-creates a skill from a successful autonomous run, with the id "agent." followed by
/// the first eight characters of `uuid_text`, at the given creation and update instants.
pub fn create_skill_from_task_at(
    task: &str,
    steps: &[CompletedStep],
    session_id: &str,
    uuid_text: &str,
    created_at: Timestamp,
    updated_at: Timestamp,
) -> (r: SkillManifest)
    requires
        ascii_prefix(uuid_text@, 8),
    ensures
        is_task_skill(r, "agent."@ + uuid_text@.take(8), task@, steps@, session_id@, created_at, updated_at),
{
    let mut id = String::from_str("agent.");
    id.append(uuid_text.substring_char(0, 8));
    let tools = tools_of(steps);
    let mut prompt_template = String::from_str("Execute the following task using the same tool sequence:\n");
    prompt_template.append(task);
    prompt_template.append("\n\nSteps:\n");
    let steps_text = steps_prompt_text(steps);
    prompt_template.append(steps_text.as_str());
    let len = task.unicode_len();
    let head_len = if len <= 50 { len } else { 50 };
    let mut name = String::from_str("Auto: ");
    name.append(task.substring_char(0, head_len));
    proof {
        if len <= 50 {
            assert(task@.subrange(0, head_len as int) =~= task@);
        }
    }
    let mut description = String::from_str("Auto-generated skill from task: ");
    description.append(task);
    let mut permissions: Vec<String> = Vec::new();
    permissions.push(String::from_str("workspace.read"));
    let mut tags: Vec<String> = Vec::new();
    tags.push(String::from_str("auto-generated"));
    tags.push(String::from_str("agent-created"));
    assert(string_views(permissions@) =~= seq!["workspace.read"@]);
    assert(string_views(tags@) =~= seq!["auto-generated"@, "agent-created"@]);
    SkillManifest {
        id,
        name,
        description,
        category: String::from_str("agent-created"),
        version: String::from_str("0.1.0"),
        lifecycle: SkillLifecycle::Draft,
        tools,
        permissions,
        prompt_template,
        success_criteria: String::from_str("All steps complete without error"),
        tags,
        created_at,
        updated_at,
        last_used: None,
        use_count: 0,
        success_count: 0,
        failure_count: 0,
        source: SkillSource::AgentCreated {
            session_id: String::from_str(session_id),
            task: String::from_str(task),
        },
    }
}

/// Auto-creates a skill from a successful autonomous run. Its id is "agent." followed by the
/// first eight characters of a random UUID, and its creation and update instants are read
/// from the clock; which id and which instants are left open.
pub fn create_skill_from_task(task: &str, steps: &[CompletedStep], session_id: &str) -> (r: SkillManifest)
    ensures
        exists|u: Seq<char>, t1: Timestamp, t2: Timestamp|
            #![trigger is_v4_uuid_text(u), is_task_skill(r, "agent."@ + u.take(8), task@, steps@, session_id@, t1, t2)]
            is_v4_uuid_text(u) && is_task_skill(r, "agent."@ + u.take(8), task@, steps@, session_id@, t1, t2),
{
    let uuid = new_v4_text();
    let created_at = now();
    let updated_at = now();
    proof {
        assert forall|i: int| 0 <= i < 8 implies (#[trigger] uuid@[i] as u32) < 128 by {
            assert(i != 8 && i != 13 && i != 18 && i != 23);
        }
    }
    create_skill_from_task_at(task, steps, session_id, uuid.as_str(), created_at, updated_at)
}


/// A recorded use keeps the use count equal to the sum of the success and failure counts.
pub proof fn lemma_usage_keeps_counts(s: SkillManifest, success: bool, t1: Timestamp, t2: Timestamp)
    requires
        usage_fits(s, success),
        s.use_count == s.success_count + s.failure_count,
    ensures
        ({
            let n = after_usage(s, success, t1, t2);
            n.use_count == n.success_count + n.failure_count
        }),
{
}

/// The place of a lifecycle on the way from draft to proven.
pub open spec fn rank(l: SkillLifecycle) -> int {
    match l {
        SkillLifecycle::Draft => 0,
        SkillLifecycle::Active => 1,
        SkillLifecycle::Proven => 2,
        SkillLifecycle::Stale => 3,
        SkillLifecycle::Archived => 4,
    }
}

/// A recorded use moves a skill only forward along draft, active, proven; it leaves stale and
/// archived skills as they are; a successful use always leaves a draft at least active.
pub proof fn lemma_usage_promotes_forward(s: SkillManifest, success: bool, t1: Timestamp, t2: Timestamp)
    requires
        usage_fits(s, success),
    ensures
        ({
            let n = after_usage(s, success, t1, t2);
            &&& rank(s.lifecycle) <= 2 ==> rank(s.lifecycle) <= rank(n.lifecycle) <= 2
            &&& (s.lifecycle == SkillLifecycle::Stale || s.lifecycle == SkillLifecycle::Archived)
                ==> n.lifecycle == s.lifecycle
            &&& (success && s.lifecycle == SkillLifecycle::Draft) ==> n.lifecycle
                != SkillLifecycle::Draft
        }),
{
}

/// No whole day passes from an instant to itself.
proof fn lemma_days_since_self(t: Timestamp)
    ensures
        t.days_since(t) == 0,
{
}

/// Right after a recorded use, a curation pass at the instant of that use neither marks the
/// skill stale nor archives it (with positive thresholds).
pub proof fn lemma_used_skill_not_stale(
    s: SkillManifest,
    success: bool,
    t1: Timestamp,
    t2: Timestamp,
    stale: int,
    archive: int,
)
    requires
        usage_fits(s, success),
        stale > 0,
        archive > 0,
    ensures
        !(curation_for(stale, archive, after_usage(s, success, t1, t2), t1) matches Some(
            CurationSpec::MarkStale { .. },
        )),
        !(curation_for(stale, archive, after_usage(s, success, t1, t2), t1) matches Some(
            CurationSpec::Archive { .. },
        )),
{
    lemma_days_since_self(t1);
}

/// The id of a curation action.
pub open spec fn action_skill_id(a: CurationSpec) -> Seq<char> {
    match a {
        CurationSpec::Activate { skill_id, .. } => skill_id,
        CurationSpec::MarkStale { skill_id, .. } => skill_id,
        CurationSpec::Archive { skill_id, .. } => skill_id,
    }
}

/// A curation pass proposes at most one action per skill, each for a skill of the pass that is
/// not archived, and none for an archived skill.
pub proof fn lemma_curation_targets(stale: int, archive: int, skills: Seq<SkillManifest>, now: Timestamp)
    ensures
        curation_actions(stale, archive, skills, now).len() <= skills.len(),
        forall|k: int|
            0 <= k < curation_actions(stale, archive, skills, now).len() ==> exists|i: int|
                0 <= i < skills.len() && skills[i].lifecycle != SkillLifecycle::Archived
                    && #[trigger] action_skill_id(curation_actions(stale, archive, skills, now)[k])
                    == skills[i].id@,
    decreases skills.len(),
{
    if skills.len() > 0 {
        let rest = skills.drop_last();
        lemma_curation_targets(stale, archive, rest, now);
        let acts = curation_actions(stale, archive, skills, now);
        let prev = curation_actions(stale, archive, rest, now);
        assert forall|k: int| 0 <= k < acts.len() implies exists|i: int|
            0 <= i < skills.len() && skills[i].lifecycle != SkillLifecycle::Archived
                && #[trigger] action_skill_id(acts[k]) == skills[i].id@ by {
            if k < prev.len() {
                assert(acts[k] == prev[k]);
                let i = choose|i: int|
                    0 <= i < rest.len() && rest[i].lifecycle != SkillLifecycle::Archived
                        && #[trigger] action_skill_id(prev[k]) == rest[i].id@;
                assert(skills[i] == rest[i]);
            } else {
                let last = skills.last();
                assert(skills[skills.len() - 1] == last);
                assert(curation_for(stale, archive, last, now) is Some);
            }
        }
    }
}


/// How severe a curation outcome is: none (or activation) 0, marking stale 1, archiving 2.
pub open spec fn severity(a: Option<CurationSpec>) -> int {
    match a {
        Some(CurationSpec::Archive { .. }) => 2,
        Some(CurationSpec::MarkStale { .. }) => 1,
        _ => 0,
    }
}

/// A longer time since last use never gives a milder action: for two versions of a skill
/// that differ at most in their last use, and two instants of the pass, the one with more
/// whole days since last use gets an action at least as severe, for the same skill id.
pub proof fn lemma_curation_severity_grows(
    stale: int,
    archive: int,
    s1: SkillManifest,
    s2: SkillManifest,
    now1: Timestamp,
    now2: Timestamp,
)
    requires
        s1.lifecycle == s2.lifecycle,
        s1.id@ == s2.id@,
        s1.success_count == s2.success_count,
        s1.last_used is Some,
        s2.last_used is Some,
        now1.days_since(s1.last_used.unwrap()) <= now2.days_since(s2.last_used.unwrap()),
    ensures
        severity(curation_for(stale, archive, s1, now1)) <= severity(
            curation_for(stale, archive, s2, now2),
        ),
        curation_for(stale, archive, s1, now1) matches Some(a1) ==> curation_for(
            stale,
            archive,
            s2,
            now2,
        ) matches Some(a2) && action_skill_id(a1) == action_skill_id(a2),
{
}

/// A curation outcome as a sequence of at most one action.
pub open spec fn opt_action(a: Option<CurationSpec>) -> Seq<CurationSpec> {
    match a {
        Some(x) => seq![x],
        None => seq![],
    }
}

/// A pass over two runs of skills is the pass over the first followed by the pass over the
/// second.
pub proof fn lemma_curation_concat(
    stale: int,
    archive: int,
    a: Seq<SkillManifest>,
    b: Seq<SkillManifest>,
    now: Timestamp,
)
    ensures
        curation_actions(stale, archive, a + b, now) == curation_actions(stale, archive, a, now)
            + curation_actions(stale, archive, b, now),
    decreases b.len(),
{
    if b.len() == 0 {
        assert(a + b =~= a);
        assert(curation_actions(stale, archive, a, now) + Seq::<CurationSpec>::empty()
            =~= curation_actions(stale, archive, a, now));
    } else {
        assert((a + b).drop_last() =~= a + b.drop_last());
        assert((a + b).last() == b.last());
        lemma_curation_concat(stale, archive, a, b.drop_last(), now);
        let ca = curation_actions(stale, archive, a, now);
        let cb = curation_actions(stale, archive, b.drop_last(), now);
        match curation_for(stale, archive, b.last(), now) {
            Some(x) => assert((ca + cb).push(x) =~= ca + cb.push(x)),
            None => {},
        }
    }
}

/// A pass over `skills` is the pass over the skills before position `k`, the outcome for
/// the skill at `k`, and the pass over the skills after it; so changing one skill changes at
/// most its own action, and the actions of all other skills stay.
pub proof fn lemma_curation_around(
    stale: int,
    archive: int,
    skills: Seq<SkillManifest>,
    k: int,
    now: Timestamp,
)
    requires
        0 <= k < skills.len(),
    ensures
        curation_actions(stale, archive, skills, now) == curation_actions(
            stale,
            archive,
            skills.take(k),
            now,
        ) + opt_action(curation_for(stale, archive, skills[k], now)) + curation_actions(
            stale,
            archive,
            skills.skip(k + 1),
            now,
        ),
{
    let pre = skills.take(k);
    let one = seq![skills[k]];
    let post = skills.skip(k + 1);
    assert(skills =~= (pre + one) + post);
    lemma_curation_concat(stale, archive, pre + one, post, now);
    lemma_curation_concat(stale, archive, pre, one, now);
    let e = Seq::<SkillManifest>::empty();
    assert(one.drop_last() =~= e);
    assert(curation_actions(stale, archive, one, now) =~= opt_action(
        curation_for(stale, archive, skills[k], now),
    )) by {
        assert(curation_actions(stale, archive, e, now) =~= Seq::<CurationSpec>::empty());
    }
}


/// The lifecycle state that a curation action moves its skill to.
pub open spec fn action_target(a: CurationSpec) -> SkillLifecycle {
    match a {
        CurationSpec::Activate { .. } => SkillLifecycle::Active,
        CurationSpec::MarkStale { .. } => SkillLifecycle::Stale,
        CurationSpec::Archive { .. } => SkillLifecycle::Archived,
    }
}

/// The lifecycle of a skill with id `id` and lifecycle `l` after `actions` are applied in
/// order: that of the last action naming `id`, or `l` when none does.
pub open spec fn lifecycle_after(l: SkillLifecycle, id: Seq<char>, actions: Seq<CurationSpec>) -> SkillLifecycle
    decreases actions.len(),
{
    if actions.len() == 0 {
        l
    } else if action_skill_id(actions.last()) == id {
        action_target(actions.last())
    } else {
        lifecycle_after(l, id, actions.drop_last())
    }
}

/// The skill after `actions` are applied: only its lifecycle may change.
pub open spec fn curated(s: SkillManifest, actions: Seq<CurationSpec>) -> SkillManifest {
    SkillManifest { lifecycle: lifecycle_after(s.lifecycle, s.id@, actions), ..s }
}

fn action_parts(a: &CurationAction) -> (r: (&String, SkillLifecycle))
    ensures
        r.0@ == action_skill_id(a@),
        r.1 == action_target(a@),
{
    match a {
        CurationAction::Activate { skill_id, .. } => (skill_id, SkillLifecycle::Active),
        CurationAction::MarkStale { skill_id, .. } => (skill_id, SkillLifecycle::Stale),
        CurationAction::Archive { skill_id, .. } => (skill_id, SkillLifecycle::Archived),
    }
}

fn lifecycle_for(l: SkillLifecycle, id: &str, actions: &[CurationAction]) -> (r: SkillLifecycle)
    ensures
        r == lifecycle_after(l, id@, action_views(actions@)),
{
    let n = actions.len();
    let mut cur = l;
    let mut j: usize = 0;
    assert(action_views(actions@).take(0) =~= Seq::<CurationSpec>::empty());
    while j < n
        invariant
            n == actions@.len(),
            j <= n,
            cur == lifecycle_after(l, id@, action_views(actions@).take(j as int)),
        decreases n - j,
    {
        let (aid, target) = action_parts(&actions[j]);
        let ghost t = action_views(actions@).take(j + 1);
        assert(t.drop_last() =~= action_views(actions@).take(j as int));
        assert(t.last() == actions@[j as int]@);
        if str_eq(aid.as_str(), id) {
            cur = target;
        }
        j = j + 1;
    }
    assert(action_views(actions@).take(n as int) =~= action_views(actions@));
    cur
}

/// Applies the actions of a curation pass to the skills: each skill takes the state that the
/// last action naming it moves it to (Activate to active, MarkStale to stale, Archive to
/// archived); skills that no action names, and every other field, stay as they were.
pub fn apply_curation(skills: &mut Vec<SkillManifest>, actions: &[CurationAction])
    ensures
        final(skills)@ == old(skills)@.map_values(|s: SkillManifest| curated(s, action_views(actions@))),
{
    let ghost orig = skills@;
    let ghost acts = action_views(actions@);
    let mut done: Vec<SkillManifest> = Vec::new();
    let ghost mut k: int = 0;
    assert(orig.skip(0) =~= orig);
    while skills.len() > 0
        invariant
            0 <= k <= orig.len(),
            skills@ == orig.skip(k),
            acts == action_views(actions@),
            done@ == orig.take(k).map_values(|s: SkillManifest| curated(s, acts)),
        decreases skills.len(),
    {
        let ghost before = skills@;
        let mut s = skills.remove(0);
        assert(before[0] == orig[k]);
        assert(skills@ =~= orig.skip(k + 1));
        let l = lifecycle_for(s.lifecycle, s.id.as_str(), actions);
        s.lifecycle = l;
        done.push(s);
        proof {
            k = k + 1;
        }
        assert(done@ =~= orig.take(k).map_values(|s: SkillManifest| curated(s, acts)));
    }
    assert(orig.take(k) =~= orig);
    *skills = done;
}


/// What one recorded use does to the counters and the lifecycle, stated case by case: the use
/// count rises by one, and the success or the failure count by one as the use went; only
/// successes count toward promotion. A draft stays a draft while it has no success, becomes
/// active with one or two, and proven with three or more; an active skill becomes proven
/// once it has three successes; proven, stale and archived skills keep their state.
pub proof fn lemma_usage_outcome(s: SkillManifest, success: bool, t1: Timestamp, t2: Timestamp)
    requires
        usage_fits(s, success),
    ensures
        ({
            let n = after_usage(s, success, t1, t2);
            let wins: int = if success { s.success_count + 1 } else { s.success_count as int };
            &&& n.use_count == s.use_count + 1
            &&& n.success_count == wins
            &&& n.failure_count == (if success { s.failure_count as int } else { s.failure_count + 1 })
            &&& n.last_used == Some(t1)
            &&& n.updated_at == t2
            &&& (n.lifecycle == SkillLifecycle::Proven <==> (s.lifecycle == SkillLifecycle::Proven || (
                (s.lifecycle == SkillLifecycle::Draft || s.lifecycle == SkillLifecycle::Active)
                    && wins >= 3)))
            &&& (n.lifecycle == SkillLifecycle::Active <==> ((s.lifecycle == SkillLifecycle::Draft
                && 1 <= wins < 3) || (s.lifecycle == SkillLifecycle::Active && wins < 3)))
            &&& (n.lifecycle == SkillLifecycle::Draft <==> (s.lifecycle == SkillLifecycle::Draft && wins
                == 0))
            &&& (n.lifecycle == SkillLifecycle::Stale <==> s.lifecycle == SkillLifecycle::Stale)
            &&& (n.lifecycle == SkillLifecycle::Archived <==> s.lifecycle == SkillLifecycle::Archived)
            &&& n.id == s.id
            &&& n.created_at == s.created_at
        }),
{
}


/// The thresholds of a curation pass, stated by kind of skill: an active or proven skill last
/// used `d` whole days ago is archived once `d` reaches the archive threshold and marked stale
/// from the stale threshold until then; a stale skill is only ever archived, from the archive
/// threshold on; a draft with a success is activated; a skill never used is left alone, and so
/// is every archived skill. Each action names the skill's own id.
pub proof fn lemma_curation_thresholds(stale: int, archive: int, s: SkillManifest, now: Timestamp)
    ensures
        ({
            let a = curation_for(stale, archive, s, now);
            &&& a is Some ==> action_skill_id(a.unwrap()) == s.id@
            &&& (s.lifecycle == SkillLifecycle::Archived || (s.lifecycle != SkillLifecycle::Draft
                && s.last_used is None)) ==> a is None
            &&& s.lifecycle == SkillLifecycle::Draft ==> (a is Some <==> s.success_count > 0)
            &&& s.lifecycle == SkillLifecycle::Draft && s.success_count > 0 ==> (a is Some
                && a.unwrap() is Activate)
            &&& (s.lifecycle == SkillLifecycle::Active || s.lifecycle == SkillLifecycle::Proven)
                && s.last_used is Some ==> {
                let d = now.days_since(s.last_used.unwrap());
                &&& (severity(a) == 2 <==> d >= archive)
                &&& (severity(a) == 1 <==> (stale <= d < archive))
                &&& (a is None <==> (d < stale && d < archive))
            }
            &&& s.lifecycle == SkillLifecycle::Stale && s.last_used is Some ==> {
                let d = now.days_since(s.last_used.unwrap());
                &&& (severity(a) == 2 <==> d >= archive)
                &&& (a is None <==> d < archive)
            }
        }),
{
}

} // verus!
