//! Dropping root privileges.
//!
//! After binding sockets and creating TUN devices the server goes on as an unprivileged user.
//! The library says which step comes next and judges how it went; the steps themselves are system
//! calls.

use crate::server::error::{ServerError, ServerResult};
use crate::text::{chars_of, decimal, push_decimal};
use vstd::prelude::*;

verus! {

/// The user and group that the process runs as.
#[derive(Debug, Clone, Copy)]
pub struct ProcessIds {
    /// User ID.
    pub uid: u32,
    /// Group ID.
    pub gid: u32,
}

/// Check if the process is running as root (UID 0).
pub fn is_root(ids: &ProcessIds) -> (b: bool)
    ensures
        b == (ids.uid == 0),
{
    ids.uid == 0
}

/// Get the current user ID.
pub fn current_uid(ids: &ProcessIds) -> (uid: u32)
    ensures
        uid == ids.uid,
{
    ids.uid
}

/// Get the current group ID.
pub fn current_gid(ids: &ProcessIds) -> (gid: u32)
    ensures
        gid == ids.gid,
{
    ids.gid
}

/// What the account databases say of the configured names.
#[derive(Debug)]
pub struct Accounts {
    /// User ID and primary group ID of the user.
    pub user: Option<(u32, u32)>,
    /// Group ID of the group.
    pub group: Option<u32>,
    /// Name of the user's primary group.
    pub primary_group: Option<String>,
}

/// Who to go on as.
#[verifier::ext_equal]
pub struct Target {
    pub uid: Option<u32>,
    pub gid: Option<u32>,
    pub user: Option<Seq<char>>,
    pub group: Option<Seq<char>>,
}

/// Whether a name holds the character that ends names in the account databases.
pub open spec fn has_nul(s: Seq<char>) -> bool {
    s.contains('\0')
}

/// The IDs of a user, or why there are none.
pub open spec fn user_ids(name: Seq<char>, found: Accounts) -> Result<(u32, u32), Seq<char>> {
    if has_nul(name) {
        Err("Invalid username (contains null byte): "@ + name)
    } else {
        match found.user {
            Some(ids) => Ok(ids),
            None => Err(
                "User '"@ + name
                    + "' not found. Create it with: useradd -r -s /usr/sbin/nologin "@ + name,
            ),
        }
    }
}

/// The ID of a group, or why there is none.
pub open spec fn group_id(name: Seq<char>, found: Accounts) -> Result<u32, Seq<char>> {
    if has_nul(name) {
        Err("Invalid group name (contains null byte): "@ + name)
    } else {
        match found.group {
            Some(gid) => Ok(gid),
            None => Err(
                "Group '"@ + name + "' not found. Create it with: groupadd -r "@ + name,
            ),
        }
    }
}

/// Who the configured names stand for. Without a group it is the user's primary one, by its name
/// or else its number.
pub open spec fn target_of(
    user: Option<Seq<char>>,
    group: Option<Seq<char>>,
    found: Accounts,
) -> Result<Target, Seq<char>> {
    match (user, group) {
        (None, None) => Ok(Target { uid: None, gid: None, user: None, group: None }),
        (Some(u), g) => match user_ids(u, found) {
            Err(m) => Err(m),
            Ok(ids) => match g {
                Some(name) => match group_id(name, found) {
                    Err(m) => Err(m),
                    Ok(gid) => Ok(
                        Target { uid: Some(ids.0), gid: Some(gid), user: Some(u), group: Some(name) },
                    ),
                },
                None => Ok(
                    Target {
                        uid: Some(ids.0),
                        gid: Some(ids.1),
                        user: Some(u),
                        group: Some(
                            match found.primary_group {
                                Some(name) => name@,
                                None => decimal(ids.1 as nat),
                            },
                        ),
                    },
                ),
            },
        },
        (None, Some(name)) => match group_id(name, found) {
            Err(m) => Err(m),
            Ok(gid) => Ok(Target { uid: None, gid: Some(gid), user: None, group: Some(name) }),
        },
    }
}

fn holds_nul(name: &str) -> (b: bool)
    ensures
        b == has_nul(name@),
{
    let chars = chars_of(name);
    let mut i: usize = 0;
    while i < chars.len()
        invariant
            i <= chars@.len(),
            chars@ == name@,
            forall|k: int| 0 <= k < i ==> chars@[k] != '\0',
        decreases chars@.len() - i,
    {
        if chars[i] == '\0' {
            return true;
        }
        i += 1;
    }
    false
}

fn find_user(name: &str, found: &Accounts) -> (r: ServerResult<(u32, u32)>)
    ensures
        match r {
            Ok(ids) => user_ids(name@, *found) == Ok::<(u32, u32), Seq<char>>(ids),
            Err(ServerError::Config(m)) => user_ids(name@, *found) == Err::<(u32, u32), Seq<char>>(
                m@,
            ),
            Err(_) => false,
        },
{
    if holds_nul(name) {
        let mut m = String::from_str("Invalid username (contains null byte): ");
        m.append(name);
        return Err(ServerError::Config(m));
    }
    match found.user {
        Some(ids) => Ok(ids),
        None => {
            let mut m = String::from_str("User '");
            m.append(name);
            m.append("' not found. Create it with: useradd -r -s /usr/sbin/nologin ");
            m.append(name);
            Err(ServerError::Config(m))
        },
    }
}

fn find_group(name: &str, found: &Accounts) -> (r: ServerResult<u32>)
    ensures
        match r {
            Ok(gid) => group_id(name@, *found) == Ok::<u32, Seq<char>>(gid),
            Err(ServerError::Config(m)) => group_id(name@, *found) == Err::<u32, Seq<char>>(m@),
            Err(_) => false,
        },
{
    if holds_nul(name) {
        let mut m = String::from_str("Invalid group name (contains null byte): ");
        m.append(name);
        return Err(ServerError::Config(m));
    }
    match found.group {
        Some(gid) => Ok(gid),
        None => {
            let mut m = String::from_str("Group '");
            m.append(name);
            m.append("' not found. Create it with: groupadd -r ");
            m.append(name);
            Err(ServerError::Config(m))
        },
    }
}

/// The view of an optional name.
pub open spec fn name_view(name: Option<&str>) -> Option<Seq<char>> {
    match name {
        Some(n) => Some(n@),
        None => None,
    }
}

/// Handles switching from root to an unprivileged user.
#[derive(Debug)]
pub struct PrivilegeDropper {
    /// User to switch to.
    pub target_uid: Option<u32>,
    /// Group to switch to.
    pub target_gid: Option<u32>,
    /// Name of the user.
    pub username: Option<String>,
    /// Name of the group.
    pub groupname: Option<String>,
}

/// A step of dropping privileges.
#[derive(Debug, Clone, Copy, PartialEq, Eq, Structural)]
pub enum DropStep {
    /// Remove all supplementary groups.
    ClearGroups,
    /// Set the group.
    SetGid(u32),
    /// Set the effective group.
    SetEgid(u32),
    /// Set the user, from which there is no way back.
    SetUid(u32),
    /// Set the effective user.
    SetEuid(u32),
    /// See which user the process runs as.
    CheckUser,
    /// Try to become root again.
    RegainRoot,
    /// Have programs run from here on gain no privileges.
    NoNewPrivileges,
    /// Have no core dumps written.
    NoCoreDumps,
}

/// How a step went.
#[derive(Debug)]
pub enum StepOutcome {
    /// The system call succeeded.
    Succeeded,
    /// The system call failed, and the system said this.
    Failed(String),
    /// The process runs as this user.
    RunsAs(u32),
}

/// What is wrong when a step went like this; hardening after the drop may fail.
pub open spec fn step_complaint(step: DropStep, outcome: StepOutcome) -> Option<Seq<char>> {
    match (step, outcome) {
        (DropStep::ClearGroups, StepOutcome::Failed(e)) => Some("setgroups(0) failed: "@ + e@),
        (DropStep::SetGid(n), StepOutcome::Failed(e)) => Some(call_text("setgid("@, n, e@)),
        (DropStep::SetEgid(n), StepOutcome::Failed(e)) => Some(call_text("setegid("@, n, e@)),
        (DropStep::SetUid(n), StepOutcome::Failed(e)) => Some(call_text("setuid("@, n, e@)),
        (DropStep::SetEuid(n), StepOutcome::Failed(e)) => Some(call_text("seteuid("@, n, e@)),
        (DropStep::CheckUser, o) => if o == StepOutcome::RunsAs(0) {
            Some("Failed to drop privileges: still root"@)
        } else {
            None
        },
        (DropStep::RegainRoot, StepOutcome::Succeeded) => Some(
            "Privilege drop incomplete: can still setuid(0)"@,
        ),
        _ => None,
    }
}

/// Whether an outcome is one that a step can have.
pub open spec fn outcome_fits(step: DropStep, outcome: StepOutcome) -> bool {
    step == DropStep::CheckUser <==> outcome is RunsAs
}

/// What a failed call is reported as.
pub open spec fn call_text(call: Seq<char>, n: u32, error: Seq<char>) -> Seq<char> {
    call + decimal(n as nat) + ") failed: "@ + error
}

fn call_failed(call: &str, n: u32, error: &str) -> (e: ServerError)
    ensures
        e matches ServerError::Config(m) && m@ == call_text(call@, n, error@),
{
    let mut m = String::from_str(call);
    push_decimal(&mut m, n as u64);
    m.append(") failed: ");
    m.append(error);
    ServerError::Config(m)
}

/// Judges how a step went.
pub fn judge(step: DropStep, outcome: &StepOutcome) -> (r: ServerResult<()>)
    requires
        outcome_fits(step, *outcome),
    ensures
        match r {
            Ok(_) => step_complaint(step, *outcome) is None,
            Err(ServerError::Config(m)) => step_complaint(step, *outcome) == Some(m@),
            Err(_) => false,
        },
{
    match (step, outcome) {
        (DropStep::ClearGroups, StepOutcome::Failed(e)) => {
            let mut m = String::from_str("setgroups(0) failed: ");
            m.append(e.as_str());
            Err(ServerError::Config(m))
        },
        (DropStep::SetGid(n), StepOutcome::Failed(e)) => Err(call_failed("setgid(", n, e.as_str())),
        (DropStep::SetEgid(n), StepOutcome::Failed(e)) => Err(
            call_failed("setegid(", n, e.as_str()),
        ),
        (DropStep::SetUid(n), StepOutcome::Failed(e)) => Err(call_failed("setuid(", n, e.as_str())),
        (DropStep::SetEuid(n), StepOutcome::Failed(e)) => Err(
            call_failed("seteuid(", n, e.as_str()),
        ),
        (DropStep::CheckUser, StepOutcome::RunsAs(uid)) => if *uid == 0 {
            Err(ServerError::Config(String::from_str("Failed to drop privileges: still root")))
        } else {
            Ok(())
        },
        (DropStep::RegainRoot, StepOutcome::Succeeded) => Err(
            ServerError::Config(
                String::from_str("Privilege drop incomplete: can still setuid(0)"),
            ),
        ),
        _ => Ok(()),
    }
}

/// The steps of dropping privileges to a user and a group, in order: the group goes before the
/// user, for only root may change it.
pub open spec fn drop_plan(uid: Option<u32>, gid: Option<u32>) -> Seq<DropStep> {
    seq![DropStep::ClearGroups] + (match gid {
        Some(g) => seq![DropStep::SetGid(g), DropStep::SetEgid(g)],
        None => Seq::empty(),
    }) + (match uid {
        Some(u) => seq![DropStep::SetUid(u), DropStep::SetEuid(u)],
        None => Seq::empty(),
    }) + seq![
        DropStep::CheckUser,
        DropStep::RegainRoot,
        DropStep::NoNewPrivileges,
        DropStep::NoCoreDumps,
    ]
}

/// What is said of a process that cannot drop privileges because it does not run as root.
pub open spec fn not_root_text(uid: u32) -> Seq<char> {
    "Privilege dropping configured but not running as root (UID "@ + decimal(uid as nat) + ")"@
}

/// Dropping privileges under way.
#[derive(Debug)]
pub struct DropRun {
    /// The steps in order.
    pub steps: Vec<DropStep>,
    /// How many of them went well.
    pub done: usize,
}

impl DropRun {
    /// The next step, `None` when all went well.
    pub fn next(&self) -> (s: Option<DropStep>)
        ensures
            s == (if self.done < self.steps@.len() {
                Some(self.steps@[self.done as int])
            } else {
                None
            }),
    {
        if self.done < self.steps.len() {
            Some(self.steps[self.done])
        } else {
            None
        }
    }

    /// Takes in how the next step went. After an error the run stays where it is and must not
    /// go on.
    pub fn record(&mut self, outcome: &StepOutcome) -> (r: ServerResult<()>)
        requires
            old(self).done < old(self).steps@.len(),
            outcome_fits(old(self).steps@[old(self).done as int], *outcome),
        ensures
            final(self).steps == old(self).steps,
            match r {
                Ok(_) => step_complaint(old(self).steps@[old(self).done as int], *outcome) is None
                    && final(self).done == old(self).done + 1,
                Err(ServerError::Config(m)) => step_complaint(
                    old(self).steps@[old(self).done as int],
                    *outcome,
                ) == Some(m@) && final(self).done == old(self).done,
                Err(_) => false,
            },
    {
        let count: usize = self.steps.len();
        match judge(self.steps[self.done], outcome) {
            Ok(_) => {
                assert(self.done < count);
                self.done += 1;
                Ok(())
            },
            Err(e) => Err(e),
        }
    }
}

impl PrivilegeDropper {
    /// Who to go on as.
    pub open spec fn target(self) -> Target {
        Target {
            uid: self.target_uid,
            gid: self.target_gid,
            user: match self.username {
                Some(n) => Some(n@),
                None => None,
            },
            group: match self.groupname {
                Some(n) => Some(n@),
                None => None,
            },
        }
    }

    /// Create a new privilege dropper from the configured names and what the account databases
    /// say of them.
    pub fn new(username: Option<&str>, groupname: Option<&str>, found: &Accounts) -> (r:
        ServerResult<PrivilegeDropper>)
        ensures
            match r {
                Ok(d) => target_of(name_view(username), name_view(groupname), *found) == Ok::<
                    Target,
                    Seq<char>,
                >(d.target()),
                Err(ServerError::Config(m)) => target_of(
                    name_view(username),
                    name_view(groupname),
                    *found,
                ) == Err::<Target, Seq<char>>(m@),
                Err(_) => false,
            },
    {
        match (username, groupname) {
            (None, None) => Ok(
                PrivilegeDropper {
                    target_uid: None,
                    target_gid: None,
                    username: None,
                    groupname: None,
                },
            ),
            (Some(user), group) => {
                let (uid, primary) = match find_user(user, found) {
                    Ok(ids) => ids,
                    Err(e) => {
                        return Err(e);
                    },
                };
                let (gid, name) = match group {
                    Some(g) => match find_group(g, found) {
                        Ok(gid) => (gid, String::from_str(g)),
                        Err(e) => {
                            return Err(e);
                        },
                    },
                    None => {
                        let name = match &found.primary_group {
                            Some(n) => String::from_str(n.as_str()),
                            None => {
                                let mut n = String::new();
                                push_decimal(&mut n, primary as u64);
                                proof {
                                    assert(n@ =~= decimal(primary as nat));
                                }
                                n
                            },
                        };
                        (primary, name)
                    },
                };
                Ok(
                    PrivilegeDropper {
                        target_uid: Some(uid),
                        target_gid: Some(gid),
                        username: Some(String::from_str(user)),
                        groupname: Some(name),
                    },
                )
            },
            (None, Some(group)) => match find_group(group, found) {
                Ok(gid) => Ok(
                    PrivilegeDropper {
                        target_uid: None,
                        target_gid: Some(gid),
                        username: None,
                        groupname: Some(String::from_str(group)),
                    },
                ),
                Err(e) => Err(e),
            },
        }
    }

    /// Check if privilege dropping is configured.
    pub fn is_configured(&self) -> (b: bool)
        ensures
            b == (self.target_uid is Some || self.target_gid is Some),
    {
        self.target_uid.is_some() || self.target_gid.is_some()
    }

    /// The steps that drop privileges to the configured user and group. There are none when
    /// nothing is configured.
    ///
    /// # Errors
    ///
    /// A process that does not run as root has nothing to drop, which is an error when a user or
    /// a group is configured.
    pub fn drop_privileges(&self, ids: &ProcessIds) -> (r: ServerResult<DropRun>)
        ensures
            r is Err <==> (self.target_uid is Some || self.target_gid is Some) && ids.uid != 0,
            match r {
                Ok(run) => run.done == 0 && run.steps@ == (if self.target_uid is Some
                    || self.target_gid is Some {
                    drop_plan(self.target_uid, self.target_gid)
                } else {
                    Seq::empty()
                }),
                Err(e) => e matches ServerError::Config(m) && m@ == not_root_text(ids.uid),
            },
    {
        let mut steps: Vec<DropStep> = Vec::new();
        if !self.is_configured() {
            return Ok(DropRun { steps, done: 0 });
        }
        if !is_root(ids) {
            let mut m = String::from_str(
                "Privilege dropping configured but not running as root (UID ",
            );
            push_decimal(&mut m, ids.uid as u64);
            m.append(")");
            return Err(ServerError::Config(m));
        }
        steps.push(DropStep::ClearGroups);
        if let Some(gid) = self.target_gid {
            steps.push(DropStep::SetGid(gid));
            steps.push(DropStep::SetEgid(gid));
        }
        if let Some(uid) = self.target_uid {
            steps.push(DropStep::SetUid(uid));
            steps.push(DropStep::SetEuid(uid));
        }
        steps.push(DropStep::CheckUser);
        steps.push(DropStep::RegainRoot);
        steps.push(DropStep::NoNewPrivileges);
        steps.push(DropStep::NoCoreDumps);
        proof {
            assert(steps@ =~= drop_plan(self.target_uid, self.target_gid));
        }
        Ok(DropRun { steps, done: 0 })
    }

    /// Get the target username (if configured).
    pub fn username(&self) -> (n: Option<&str>)
        ensures
            name_view(n) == self.target().user,
    {
        match &self.username {
            Some(n) => Some(n.as_str()),
            None => None,
        }
    }

    /// Get the target group name (if configured).
    pub fn groupname(&self) -> (n: Option<&str>)
        ensures
            name_view(n) == self.target().group,
    {
        match &self.groupname {
            Some(n) => Some(n.as_str()),
            None => None,
        }
    }
}

/// Whether every step of a plan had an outcome that it can have and that went well.
pub open spec fn all_well(plan: Seq<DropStep>, outcomes: Seq<StepOutcome>) -> bool {
    &&& plan.len() == outcomes.len()
    &&& forall|i: int|
        0 <= i < plan.len() ==> outcome_fits(#[trigger] plan[i], outcomes[i]) && step_complaint(
            plan[i],
            outcomes[i],
        ) is None
}

/// How far a run of a plan gets with these outcomes, one for each step in turn: a step that did
/// not go well ends it.
pub open spec fn got_through(plan: Seq<DropStep>, outcomes: Seq<StepOutcome>) -> nat
    decreases outcomes.len(),
{
    if outcomes.len() == 0 {
        0
    } else {
        let n = got_through(plan, outcomes.drop_last());
        if n == outcomes.len() - 1 && step_complaint(plan[n as int], outcomes.last()) is None {
            n + 1
        } else {
            n
        }
    }
}

/// A run that was taken to its end went well at every step, given that every outcome was one that
/// its step can have.
pub proof fn law_finished_runs_went_well(plan: Seq<DropStep>, outcomes: Seq<StepOutcome>)
    requires
        outcomes.len() <= plan.len(),
        forall|i: int| 0 <= i < outcomes.len() ==> outcome_fits(plan[i], #[trigger] outcomes[i]),
    ensures
        got_through(plan, outcomes) <= outcomes.len(),
        got_through(plan, outcomes) == plan.len() <==> all_well(plan, outcomes),
{
    lemma_got_through(plan, outcomes);
    if got_through(plan, outcomes) == plan.len() {
        assert forall|i: int| 0 <= i < plan.len() implies outcome_fits(
            #[trigger] plan[i],
            outcomes[i],
        ) && step_complaint(plan[i], outcomes[i]) is None by {
            assert(step_complaint(plan[i], #[trigger] outcomes[i]) is None);
        }
    }
}

proof fn lemma_got_through(plan: Seq<DropStep>, outcomes: Seq<StepOutcome>)
    ensures
        got_through(plan, outcomes) <= outcomes.len(),
        got_through(plan, outcomes) == outcomes.len() <==> forall|i: int|
            0 <= i < outcomes.len() ==> step_complaint(plan[i], #[trigger] outcomes[i]) is None,
    decreases outcomes.len(),
{
    if outcomes.len() > 0 {
        let before = outcomes.drop_last();
        lemma_got_through(plan, before);
        let n = outcomes.len() - 1;
        if got_through(plan, outcomes) == outcomes.len() {
            assert forall|i: int| 0 <= i < outcomes.len() implies step_complaint(
                plan[i],
                #[trigger] outcomes[i],
            ) is None by {
                if i < n {
                    assert(before[i] == outcomes[i]);
                }
            }
        }
        if forall|i: int|
            0 <= i < outcomes.len() ==> step_complaint(plan[i], #[trigger] outcomes[i]) is None {
            assert forall|i: int| 0 <= i < before.len() implies step_complaint(
                plan[i],
                #[trigger] before[i],
            ) is None by {
                assert(before[i] == outcomes[i]);
            }
            assert(step_complaint(plan[n], outcomes[n]) is None);
        }
    }
}

/// Supplementary groups are cleared first, the group is changed before the user, and only after
/// the user is changed is it checked that root is gone for good.
pub proof fn law_group_goes_before_user(uid: Option<u32>, gid: Option<u32>, i: int, j: int)
    requires
        0 <= i < drop_plan(uid, gid).len(),
        0 <= j < drop_plan(uid, gid).len(),
    ensures
        drop_plan(uid, gid)[0] == DropStep::ClearGroups,
        (drop_plan(uid, gid)[i] is SetGid || drop_plan(uid, gid)[i] is SetEgid) && (drop_plan(
            uid,
            gid,
        )[j] is SetUid || drop_plan(uid, gid)[j] is SetEuid) ==> i < j,
        (drop_plan(uid, gid)[i] is SetUid || drop_plan(uid, gid)[i] is SetEuid) && (drop_plan(
            uid,
            gid,
        )[j] == DropStep::CheckUser || drop_plan(uid, gid)[j] == DropStep::RegainRoot) ==> i < j,
        gid is Some ==> drop_plan(uid, gid).contains(DropStep::SetGid(gid->0)),
        uid is Some ==> drop_plan(uid, gid).contains(DropStep::SetUid(uid->0)),
{
    let plan = drop_plan(uid, gid);
    if gid is Some {
        assert(plan[1] == DropStep::SetGid(gid->0));
    }
    if uid is Some {
        let k: int = if gid is Some {
            3
        } else {
            1
        };
        assert(plan[k] == DropStep::SetUid(uid->0));
    }
}

/// When all went well the process runs as someone other than root, an attempt to become root
/// again was refused, and every change of user and group succeeded.
pub proof fn law_success_means_root_is_gone(
    uid: Option<u32>,
    gid: Option<u32>,
    outcomes: Seq<StepOutcome>,
    i: int,
)
    requires
        all_well(drop_plan(uid, gid), outcomes),
        0 <= i < outcomes.len(),
    ensures
        drop_plan(uid, gid)[i] == DropStep::CheckUser ==> outcomes[i] is RunsAs && outcomes[i]
            != StepOutcome::RunsAs(0),
        drop_plan(uid, gid)[i] == DropStep::RegainRoot ==> outcomes[i] is Failed,
        drop_plan(uid, gid)[i] is SetUid || drop_plan(uid, gid)[i] is SetEuid || drop_plan(
            uid,
            gid,
        )[i] is SetGid || drop_plan(uid, gid)[i] is SetEgid || drop_plan(uid, gid)[i]
            == DropStep::ClearGroups ==> outcomes[i] == StepOutcome::Succeeded,
        drop_plan(uid, gid).contains(DropStep::CheckUser),
        drop_plan(uid, gid).contains(DropStep::RegainRoot),
{
    let plan = drop_plan(uid, gid);
    assert(plan[plan.len() - 4] == DropStep::CheckUser);
    assert(plan[plan.len() - 3] == DropStep::RegainRoot);
    assert(outcome_fits(plan[i], outcomes[i]));
}

/// A step that matters and fails is complained of, and so is a process that is still root or can
/// become it again; what went as it should is not, nor is hardening that the system refuses.
pub proof fn law_steps_are_judged(step: DropStep, error: String, uid: u32)
    ensures
        step is ClearGroups || step is SetGid || step is SetEgid || step is SetUid || step
            is SetEuid ==> step_complaint(step, StepOutcome::Failed(error)) is Some
            && step_complaint(step, StepOutcome::Succeeded) is None,
        step_complaint(DropStep::CheckUser, StepOutcome::RunsAs(uid)) is Some <==> uid == 0,
        step_complaint(DropStep::RegainRoot, StepOutcome::Succeeded) is Some,
        step_complaint(DropStep::RegainRoot, StepOutcome::Failed(error)) is None,
        step is NoNewPrivileges || step is NoCoreDumps ==> step_complaint(
            step,
            StepOutcome::Failed(error),
        ) is None && step_complaint(step, StepOutcome::Succeeded) is None,
{
}

/// The plan changes the real and the effective user and group that are asked for, and no others,
/// and ends with the checks and the hardening.
pub proof fn law_the_plan_is_complete(uid: Option<u32>, gid: Option<u32>, n: u32)
    ensures
        ({
            let plan = drop_plan(uid, gid);
            &&& plan.contains(DropStep::SetUid(n)) <==> uid == Some(n)
            &&& plan.contains(DropStep::SetEuid(n)) <==> uid == Some(n)
            &&& plan.contains(DropStep::SetGid(n)) <==> gid == Some(n)
            &&& plan.contains(DropStep::SetEgid(n)) <==> gid == Some(n)
            &&& plan.len() == 5 + (if uid is Some {
                2int
            } else {
                0int
            }) + (if gid is Some {
                2int
            } else {
                0int
            })
            &&& plan[plan.len() - 4] is CheckUser
            &&& plan[plan.len() - 3] is RegainRoot
            &&& plan[plan.len() - 2] is NoNewPrivileges
            &&& plan[plan.len() - 1] is NoCoreDumps
        }),
{
    let plan = drop_plan(uid, gid);
    let k: int = if gid is Some {
        3
    } else {
        1
    };
    if gid is Some {
        assert(plan[1] == DropStep::SetGid(gid->0));
        assert(plan[2] == DropStep::SetEgid(gid->0));
    }
    if uid is Some {
        assert(plan[k] == DropStep::SetUid(uid->0));
        assert(plan[k + 1] == DropStep::SetEuid(uid->0));
    }
}

/// The process becomes the user that is configured, with the group that is configured or else the
/// user's own; names that are not found, or that no account can have, are refused.
pub proof fn law_names_lead_to_their_accounts(
    user: Seq<char>,
    group: Seq<char>,
    found: Accounts,
)
    ensures
        !has_nul(user) && found.user is Some ==> (target_of(Some(user), None, found) matches Ok(t)
            && t.uid == Some((found.user->0).0) && t.gid == Some((found.user->0).1) && t.user == Some(
            user,
        )),
        !has_nul(user) && found.user is Some && !has_nul(group) && found.group is Some ==> (
        target_of(Some(user), Some(group), found) matches Ok(t) && t.uid == Some((found.user->0).0)
            && t.gid == found.group && t.user == Some(user) && t.group == Some(group)),
        !has_nul(group) && found.group is Some ==> (target_of(None, Some(group), found) matches Ok(
            t,
        ) && t.uid is None && t.gid == found.group && t.group == Some(group)),
        has_nul(user) || found.user is None ==> target_of(Some(user), None, found) is Err
            && target_of(Some(user), Some(group), found) is Err,
        has_nul(group) || found.group is None ==> target_of(None, Some(group), found) is Err
            && target_of(Some(user), Some(group), found) is Err,
        target_of(None, None, found) matches Ok(t) && t.uid is None && t.gid is None,
{
}

} // verus!
