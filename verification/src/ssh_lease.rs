//! Deciding whether an SSH reconnect reuses its installed lease, and whether
//! the result of an asynchronous lease acquisition may still be installed.

use vstd::prelude::*;
use vstd::std_specs::cmp::PartialEqSpec;

verus! {

/// Whether a reconnect can reuse the currently installed generation-bound
/// lease or must acquire one for the latest persisted identity.
#[derive(Clone, Copy, Debug, PartialEq, Eq, Structural)]
pub enum SshLeaseSelection {
    ReuseInstalled,
    AcquireReplacement,
}

/// Stable outcome for an asynchronous lease acquisition once control returns
/// to the terminal.
#[derive(Clone, Copy, Debug, PartialEq, Eq, Structural)]
pub enum SshLeaseAcquireResolution {
    Install,
    RejectStale,
    FailCurrent,
}

/// Reuse the installed lease exactly when its identity equals the desired one.
pub fn select_ssh_lease<I: PartialEq>(installed_identity: Option<&I>, desired_identity: &I) -> (r: SshLeaseSelection)
    requires
        I::obeys_eq_spec(),
    ensures
        r == (match installed_identity {
            Some(installed) if installed.eq_spec(desired_identity) => SshLeaseSelection::ReuseInstalled,
            _ => SshLeaseSelection::AcquireReplacement,
        }),
{
    match installed_identity {
        Some(installed) => {
            if installed.eq(desired_identity) {
                SshLeaseSelection::ReuseInstalled
            } else {
                SshLeaseSelection::AcquireReplacement
            }
        }
        None => SshLeaseSelection::AcquireReplacement,
    }
}

/// Identity and terminal connection generation captured before awaiting the
/// application SSH service.
#[derive(Clone, Debug, PartialEq, Eq)]
pub struct SshLeaseAcquireRequest<I> {
    generation: u64,
    identity: I,
}

impl<I> SshLeaseAcquireRequest<I> {
    /// The generation captured with the request.
    pub closed spec fn spec_generation(&self) -> u64 {
        self.generation
    }

    /// The identity captured with the request.
    pub closed spec fn spec_identity(&self) -> I {
        self.identity
    }

    pub fn new(generation: u64, identity: I) -> (r: Self)
        ensures
            r.spec_generation() == generation,
            r.spec_identity() == identity,
    {
        Self { generation, identity }
    }

    pub fn generation(&self) -> (r: u64)
        ensures
            r == self.spec_generation(),
    {
        self.generation
    }

    pub fn identity(&self) -> (r: &I)
        ensures
            *r == self.spec_identity(),
    {
        &self.identity
    }
}

impl<I: PartialEq> SshLeaseAcquireRequest<I> {
    /// An acquired lease is installed only when the request is still current
    /// (same generation and the same desired identity); a current request
    /// whose acquisition failed fails explicitly; anything else is stale.
    pub fn resolve(
        &self,
        current_generation: u64,
        current_desired_identity: Option<&I>,
        acquired: bool,
    ) -> (r: SshLeaseAcquireResolution)
        requires
            I::obeys_eq_spec(),
        ensures
            r == (if !is_current_request(self, current_generation, current_desired_identity) {
                SshLeaseAcquireResolution::RejectStale
            } else if acquired {
                SshLeaseAcquireResolution::Install
            } else {
                SshLeaseAcquireResolution::FailCurrent
            }),
    {
        let is_current = self.generation == current_generation && match current_desired_identity {
            Some(identity) => identity.eq(&self.identity),
            None => false,
        };
        if !is_current {
            return SshLeaseAcquireResolution::RejectStale;
        }
        if acquired {
            SshLeaseAcquireResolution::Install
        } else {
            SshLeaseAcquireResolution::FailCurrent
        }
    }
}

/// A request is current when its generation is the current one and the
/// desired identity is present and equal to the captured identity.
pub open spec fn is_current_request<I: PartialEq>(
    request: &SshLeaseAcquireRequest<I>,
    current_generation: u64,
    current_desired_identity: Option<&I>,
) -> bool {
    &&& request.spec_generation() == current_generation
    &&& match current_desired_identity {
        Some(identity) => identity.eq_spec(&request.spec_identity()),
        None => false,
    }
}

/// A request from an older generation is never installed, whatever the
/// acquisition produced and whatever identity is desired now.
pub proof fn lemma_stale_generation_never_installs<I: PartialEq>(
    request: SshLeaseAcquireRequest<I>,
    current_generation: u64,
    current_desired_identity: Option<&I>,
    acquired: bool,
)
    requires
        request.spec_generation() != current_generation,
    ensures
        !is_current_request(&request, current_generation, current_desired_identity),
{
}

} // verus!
