//! The status of a launch in the upcoming-launch feed, by its numeric id.
use vstd::prelude::*;

verus! {

#[derive(Clone, Copy, Debug, PartialEq, Eq, Structural)]
pub enum UpcomingLaunchStatusId {
    ToBeDetermined,
    ToBeConfirmed,
    GoForLaunch,
    LaunchSuccessful,
    LaunchFailure,
    OnHold,
    LaunchInFlight,
    LaunchWasAPartialFailure,
}

/// The status that the feed writes as `id`: 1 go for launch, 2 to be
/// determined, 3 launch successful, 4 launch failure, 5 on hold, 6 launch
/// in flight, 7 partial failure, 8 to be confirmed; no other id has one.
pub open spec fn status_of_id(id: int) -> Option<UpcomingLaunchStatusId> {
    if id == 1 {
        Some(UpcomingLaunchStatusId::GoForLaunch)
    } else if id == 2 {
        Some(UpcomingLaunchStatusId::ToBeDetermined)
    } else if id == 3 {
        Some(UpcomingLaunchStatusId::LaunchSuccessful)
    } else if id == 4 {
        Some(UpcomingLaunchStatusId::LaunchFailure)
    } else if id == 5 {
        Some(UpcomingLaunchStatusId::OnHold)
    } else if id == 6 {
        Some(UpcomingLaunchStatusId::LaunchInFlight)
    } else if id == 7 {
        Some(UpcomingLaunchStatusId::LaunchWasAPartialFailure)
    } else if id == 8 {
        Some(UpcomingLaunchStatusId::ToBeConfirmed)
    } else {
        None
    }
}

impl UpcomingLaunchStatusId {
    /// Whether the rocket has left the pad: the launch succeeded, failed,
    /// partly failed, or is in flight.
    pub open spec fn launched(self) -> bool {
        match self {
            UpcomingLaunchStatusId::LaunchSuccessful
            | UpcomingLaunchStatusId::LaunchFailure
            | UpcomingLaunchStatusId::LaunchInFlight
            | UpcomingLaunchStatusId::LaunchWasAPartialFailure => true,
            _ => false,
        }
    }

    pub fn from_id(id: i32) -> (r: Option<Self>)
        ensures
            r == status_of_id(id as int),
    {
        match id {
            2 => Some(UpcomingLaunchStatusId::ToBeDetermined),
            8 => Some(UpcomingLaunchStatusId::ToBeConfirmed),
            1 => Some(UpcomingLaunchStatusId::GoForLaunch),
            3 => Some(UpcomingLaunchStatusId::LaunchSuccessful),
            4 => Some(UpcomingLaunchStatusId::LaunchFailure),
            5 => Some(UpcomingLaunchStatusId::OnHold),
            6 => Some(UpcomingLaunchStatusId::LaunchInFlight),
            7 => Some(UpcomingLaunchStatusId::LaunchWasAPartialFailure),
            _ => None,
        }
    }

    pub fn is_launched(&self) -> (r: bool)
        ensures
            r == self.launched(),
    {
        match *self {
            UpcomingLaunchStatusId::LaunchSuccessful
            | UpcomingLaunchStatusId::LaunchFailure
            | UpcomingLaunchStatusId::LaunchInFlight
            | UpcomingLaunchStatusId::LaunchWasAPartialFailure => true,
            _ => false,
        }
    }
}

/// Distinct ids name distinct statuses, and every status has an id.
pub proof fn lemma_status_ids_one_to_one(a: int, b: int, s: UpcomingLaunchStatusId)
    ensures
        status_of_id(a) is Some && status_of_id(a) == status_of_id(b) ==> a == b,
        exists|id: int| 1 <= id <= 8 && #[trigger] status_of_id(id) == Some(s),
{
    match s {
        UpcomingLaunchStatusId::GoForLaunch => assert(status_of_id(1) == Some(s)),
        UpcomingLaunchStatusId::ToBeDetermined => assert(status_of_id(2) == Some(s)),
        UpcomingLaunchStatusId::LaunchSuccessful => assert(status_of_id(3) == Some(s)),
        UpcomingLaunchStatusId::LaunchFailure => assert(status_of_id(4) == Some(s)),
        UpcomingLaunchStatusId::OnHold => assert(status_of_id(5) == Some(s)),
        UpcomingLaunchStatusId::LaunchInFlight => assert(status_of_id(6) == Some(s)),
        UpcomingLaunchStatusId::LaunchWasAPartialFailure => assert(status_of_id(7) == Some(s)),
        UpcomingLaunchStatusId::ToBeConfirmed => assert(status_of_id(8) == Some(s)),
    }
}

/// The ids of launched statuses are exactly 3, 4, 6 and 7.
pub proof fn lemma_launched_ids(id: int)
    ensures
        (status_of_id(id) matches Some(s) && s.launched()) <==> (id == 3 || id == 4 || id == 6
            || id == 7),
{
}

} // verus!
