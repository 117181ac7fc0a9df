//! The power manager's interface: the assertions a run asks for, the levels
//! it asks them at, and what the manager's status codes mean.

use vstd::prelude::*;
use crate::error::AwakeError;

verus! {

/// The identifier that the power manager gives to an assertion when it
/// creates one, and by which the assertion is released.
pub type Handle = u32;

/// The level that switches an assertion on.
pub const LEVEL_ON: u32 = 255;

/// The level that switches an assertion off.
pub const LEVEL_OFF: u32 = 0;

/// The status with which the power manager reports success.
pub const STATUS_SUCCESS: u32 = 0;

/// The status with which the power manager answers the release of an
/// assertion that has already been released.
pub const STATUS_ALREADY_RELEASED: u32 = 0xE000_02C2;

/// The named kinds of sleep that an assertion prevents.
#[derive(Clone, Copy, Debug, PartialEq, Eq, Structural)]
pub enum AssertionKind {
    /// Keeps the display from sleeping while the user is idle.
    PreventUserIdleDisplaySleep,
    /// Keeps the disk from idling.
    PreventDiskIdle,
    /// Keeps the system from sleeping while the user is idle.
    PreventUserIdleSystemSleep,
    /// Keeps the system from sleeping at all.
    PreventSystemSleep,
}

impl AssertionKind {
    /// The name by which the power manager knows the kind.
    pub open spec fn spec_name(self) -> Seq<char> {
        match self {
            AssertionKind::PreventUserIdleDisplaySleep => "PreventUserIdleDisplaySleep"@,
            AssertionKind::PreventDiskIdle => "PreventDiskIdle"@,
            AssertionKind::PreventUserIdleSystemSleep => "PreventUserIdleSystemSleep"@,
            AssertionKind::PreventSystemSleep => "PreventSystemSleep"@,
        }
    }

    /// The name to create an assertion of this kind with.
    pub fn name(&self) -> (name: &'static str)
        ensures
            name@ == self.spec_name(),
    {
        match self {
            AssertionKind::PreventUserIdleDisplaySleep => "PreventUserIdleDisplaySleep",
            AssertionKind::PreventDiskIdle => "PreventDiskIdle",
            AssertionKind::PreventUserIdleSystemSleep => "PreventUserIdleSystemSleep",
            AssertionKind::PreventSystemSleep => "PreventSystemSleep",
        }
    }
}

/// The level to ask for: on for an active assertion, off otherwise.
pub open spec fn level_for(active: bool) -> u32 {
    if active {
        LEVEL_ON
    } else {
        LEVEL_OFF
    }
}

/// Chooses the level to ask for.
pub fn assertion_level(active: bool) -> (level: u32)
    ensures
        level == level_for(active),
{
    if active {
        LEVEL_ON
    } else {
        LEVEL_OFF
    }
}

/// What a creation request came to, by its status: the handle `id` where the
/// power manager answered with status zero, and a creation failure that
/// carries the status otherwise.
pub open spec fn creation_outcome(status: i32, id: Handle) -> Result<Handle, AwakeError> {
    if status == 0 {
        Ok(id)
    } else {
        Err(AwakeError::AssertionCreateFailed(status))
    }
}

/// Reads the answer to a request for a named assertion, or to a declaration
/// of user activity: the two answer alike.
pub fn creation_result(status: i32, id: Handle) -> (r: Result<Handle, AwakeError>)
    ensures
        r == creation_outcome(status, id),
{
    if status == 0 {
        Ok(id)
    } else {
        Err(AwakeError::AssertionCreateFailed(status))
    }
}

/// Whether a release status counts as success: the assertion was released
/// now, or it had been released before.
pub open spec fn release_succeeded(status: u32) -> bool {
    status == STATUS_SUCCESS || status == STATUS_ALREADY_RELEASED
}

/// What a release request came to, by its status. Releasing what is already
/// released is a success, so that two paths may release the same handle; any
/// other status but zero is a release failure that carries the status.
pub open spec fn release_outcome(status: u32) -> Result<(), AwakeError> {
    if release_succeeded(status) {
        Ok(())
    } else {
        Err(AwakeError::AssertionReleaseFailed(status))
    }
}

/// Reads the answer to a release request.
pub fn release_result(status: u32) -> (r: Result<(), AwakeError>)
    ensures
        r == release_outcome(status),
{
    if status == STATUS_SUCCESS || status == STATUS_ALREADY_RELEASED {
        Ok(())
    } else {
        Err(AwakeError::AssertionReleaseFailed(status))
    }
}

/// The power manager's answer to the release of `handle`, as this library
/// relies on it: success for a handle that is live, and the status of a
/// handle already released for one that is not.
pub open spec fn release_status(live: Set<Handle>, handle: Handle) -> u32 {
    if live.contains(handle) {
        STATUS_SUCCESS
    } else {
        STATUS_ALREADY_RELEASED
    }
}

/// Releasing a handle twice is no error. Whatever handles are live, the
/// first release of a handle and the second both read as success, and the
/// second leaves the live handles as the first left them.
pub proof fn lemma_release_twice(live: Set<Handle>, handle: Handle)
    ensures
        release_outcome(release_status(live, handle)) is Ok,
        release_outcome(release_status(live.remove(handle), handle)) is Ok,
        live.remove(handle).remove(handle) == live.remove(handle),
{
}

} // verus!
