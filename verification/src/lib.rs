//! Decision logic of a desktop notifier for upcoming rocket launches: the
//! launch-status table, the timestamp parser, the record of reminders already
//! sent for each launch, and the step that decides, for one launch of the
//! upcoming-launch feed, which reminder (if any) is due.
use vstd::prelude::*;

pub mod images;
pub mod laws;
pub mod notifications;
pub mod planner;
pub mod reminder_laws;
pub mod status;
pub mod upcoming_launch;
pub mod string_map;
pub mod text;
pub mod time;

verus! {

} // verus!
