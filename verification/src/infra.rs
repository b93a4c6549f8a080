//! Runtime infrastructure: feature switches, hooks, permissions and task packets.

use vstd::prelude::*;

verus! {

/// Runtime feature switches.
#[derive(Debug, Clone, Copy)]
pub struct RuntimeFeatureConfig {
    pub auto_compaction: bool,
}

impl Default for RuntimeFeatureConfig {
    /// Every feature off.
    fn default() -> (c: Self)
        ensures
            !c.auto_compaction,
    {
        RuntimeFeatureConfig { auto_compaction: false }
    }
}

impl RuntimeFeatureConfig {
    /// The features a runtime starts with: automatic compaction on.
    pub fn default_features() -> (c: Self)
        ensures
            c.auto_compaction,
    {
        RuntimeFeatureConfig { auto_compaction: true }
    }
}

/// A request to stop a hook.
pub struct HookAbortSignal;

/// Receives the progress messages of a hook.
pub trait HookProgressReporter {
    fn report(&self, message: &str);
}

/// How a hook run ended.
#[derive(Debug)]
pub enum HookRunResult {
    Completed,
    Skipped,
    Failed(String),
}

/// Runs a named hook.
pub struct HookRunner;

impl HookRunner {
    /// A runner for the hook of the given name.
    pub fn new(_name: &str) -> (r: Self) {
        HookRunner
    }

    /// Runs the hook; it always completes.
    pub fn run<R: HookProgressReporter>(&self, _reporter: &R) -> (r: HookRunResult)
        ensures
            r is Completed,
    {
        HookRunResult::Completed
    }
}

/// The context a permission is checked in, made for a working directory.
pub struct PermissionContext;

impl PermissionContext {
    /// The context for the working directory `cwd`.
    pub fn new(_cwd: &str) -> (r: Self) {
        PermissionContext
    }

    /// Whether the permission is granted: every permission is.
    pub fn check_permission(&self, _permission: &str) -> (r: bool)
        ensures
            r,
    {
        true
    }
}

/// What a policy decides for a permission.
#[derive(Debug, Clone, Copy, PartialEq, Eq, Structural)]
pub enum PermissionOutcome {
    Allow,
    Deny,
    Prompt,
}

/// A permission policy.
pub struct PermissionPolicy;

impl PermissionPolicy {
    /// The default policy.
    pub fn default_policy() -> (r: Self) {
        PermissionPolicy
    }

    /// The policy's decision: every permission is allowed.
    pub fn evaluate(&self, _context: &PermissionContext, _permission: &str) -> (r: PermissionOutcome)
        ensures
            r == PermissionOutcome::Allow,
    {
        PermissionOutcome::Allow
    }
}

/// Asks the user whether to grant something.
pub trait PermissionPrompter {
    fn prompt(&self, message: &str) -> bool;
}

/// The prompter that grants everything.
pub struct DefaultPermissionPrompter;

impl PermissionPrompter for DefaultPermissionPrompter {
    /// Grants the request.
    fn prompt(&self, _message: &str) -> (r: bool)
        ensures
            r,
    {
        true
    }
}

/// A unit of work handed to a worker.
#[derive(Debug, Clone, PartialEq)]
pub struct TaskPacket {
    pub objective: String,
    pub scope: String,
    pub repo: String,
    pub branch_policy: String,
    pub acceptance_tests: Vec<String>,
    pub commit_policy: String,
    pub reporting_contract: String,
    pub escalation_policy: String,
}

/// Why a task packet was refused.
#[derive(Debug, Clone)]
pub struct TaskPacketValidationError {
    pub message: String,
}

/// A task packet that passed validation.
pub struct ValidatedPacket(TaskPacket);

/// Two packets hold the same texts.
pub open spec fn same_packet(a: TaskPacket, b: TaskPacket) -> bool {
    &&& a.objective@ == b.objective@
    &&& a.scope@ == b.scope@
    &&& a.repo@ == b.repo@
    &&& a.branch_policy@ == b.branch_policy@
    &&& crate::text::views(a.acceptance_tests@) == crate::text::views(b.acceptance_tests@)
    &&& a.commit_policy@ == b.commit_policy@
    &&& a.reporting_contract@ == b.reporting_contract@
    &&& a.escalation_policy@ == b.escalation_policy@
}

impl View for ValidatedPacket {
    type V = TaskPacket;

    closed spec fn view(&self) -> TaskPacket {
        self.0
    }
}

impl ValidatedPacket {
    /// The packet.
    pub fn into_inner(self) -> (p: TaskPacket)
        ensures
            p == self@,
    {
        self.0
    }
}

fn copy_strings(v: &Vec<String>) -> (r: Vec<String>)
    ensures
        crate::text::views(r@) == crate::text::views(v@),
{
    let mut r: Vec<String> = Vec::new();
    let mut i: usize = 0;
    while i < v.len()
        invariant
            i <= v.len(),
            crate::text::views(r@) == crate::text::views(v@.take(i as int)),
        decreases v.len() - i,
    {
        r.push(v[i].clone());
        assert(crate::text::views(v@.take(i + 1)) =~= crate::text::views(v@.take(i as int)).push(
            v@[i as int]@,
        ));
        i = i + 1;
    }
    assert(v@.take(v.len() as int) =~= v@);
    r
}

/// Validates a packet: every packet passes, and the validated packet holds
/// the same texts.
pub fn validate_packet(packet: &TaskPacket) -> (r: Result<ValidatedPacket, TaskPacketValidationError>)
    ensures
        r is Ok,
        r matches Ok(v) ==> same_packet(v@, *packet),
{
    Ok(
        ValidatedPacket(
            TaskPacket {
                objective: packet.objective.clone(),
                scope: packet.scope.clone(),
                repo: packet.repo.clone(),
                branch_policy: packet.branch_policy.clone(),
                acceptance_tests: copy_strings(&packet.acceptance_tests),
                commit_policy: packet.commit_policy.clone(),
                reporting_contract: packet.reporting_contract.clone(),
                escalation_policy: packet.escalation_policy.clone(),
            },
        ),
    )
}

} // verus!
