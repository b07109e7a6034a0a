//! The decision taken for one launch of the feed on each periodic check:
//! whether a reminder is due (the launch has happened, is less than an hour
//! away, or less than a day away), what it says, and how the record of sent
//! reminders changes. The caller sends the notification and stores the
//! record; this module only decides.
use vstd::prelude::*;

use crate::notifications::{
    LaunchNotifications, LaunchNotificationsView, SentNotifications, lookup_aborts,
    record_after_lookup,
};
use crate::status::{UpcomingLaunchStatusId, status_of_id};
use crate::text::{decimal, decimal_string, str_eq};
use crate::time::{
    CivilTime, LaunchTime, TimeParse, TimeParseSpec, seconds_between, time_parse_spec,
    trunc_div, try_parse_time,
};
use crate::upcoming_launch::Result;

verus! {

/// A reminder about one launch.
#[derive(Clone, Copy, Debug, PartialEq, Eq, Structural)]
pub enum Reminder {
    /// The rocket has left the pad.
    Launched,
    /// The launch is less than an hour away.
    WithinHour,
    /// The launch is less than a day away.
    WithinDay,
}

/// Whether a launch counts as launched: by its status when the feed's
/// status id (taken as an `i32`, wrapping) is known, and otherwise by
/// whether its time (`since` seconds from now) has passed.
pub open spec fn launched_decision(status_id: i64, since: int) -> bool {
    match status_of_id((status_id as i32) as int) {
        Some(s) => s.launched(),
        None => since < 0,
    }
}

pub fn launch_has_happened(status_id: i64, since: i64) -> (r: bool)
    ensures
        r == launched_decision(status_id, since as int),
{
    match UpcomingLaunchStatusId::from_id(status_id as i32) {
        Some(status) => status.is_launched(),
        None => since < 0,
    }
}

/// The reminder that is due, and the record with it marked as sent: the
/// launch reminder for a launched launch; otherwise the hour reminder when
/// the launch is less than an hour away, else the day reminder; none when
/// that reminder was already sent.
pub open spec fn claim_spec(r: LaunchNotificationsView, launched: bool, since: int) -> (
    LaunchNotificationsView,
    Option<Reminder>,
) {
    if launched {
        if r.now {
            (r, None)
        } else {
            (LaunchNotificationsView { now: true, ..r }, Some(Reminder::Launched))
        }
    } else if since < 3600 {
        if r.one_hour {
            (r, None)
        } else {
            (LaunchNotificationsView { one_hour: true, ..r }, Some(Reminder::WithinHour))
        }
    } else if r.one_day {
        (r, None)
    } else {
        (LaunchNotificationsView { one_day: true, ..r }, Some(Reminder::WithinDay))
    }
}

impl LaunchNotifications {
    /// Marks the due reminder as sent and returns it (see `claim_spec`).
    pub fn claim_reminder(&mut self, launched: bool, since: i64) -> (r: Option<Reminder>)
        ensures
            (final(self)@, r) == claim_spec(old(self)@, launched, since as int),
    {
        if launched {
            if self.now {
                None
            } else {
                self.now = true;
                Some(Reminder::Launched)
            }
        } else if since < 60 * 60 {
            if self.one_hour {
                None
            } else {
                self.one_hour = true;
                Some(Reminder::WithinHour)
            }
        } else if self.one_day {
            None
        } else {
            self.one_day = true;
            Some(Reminder::WithinDay)
        }
    }
}

/// Whole hours and the minutes beyond them in a time `since` seconds away,
/// as the reminder counts them: whole minutes rounded toward zero, taken as
/// a `u32` (wrapping, for a time in the past).
pub open spec fn countdown_parts(since: int) -> (u32, u32) {
    let total = trunc_div(since, 60) as u32;
    ((total / 60) as u32, (total % 60) as u32)
}

/// How far away a launch `since` seconds from now is, in words: "1 day"
/// past 23 hours 30 minutes, "1 hour" past 55 minutes and for any time
/// in the second hour, "`m` minutes" within the first hour, and "`h` hours"
/// otherwise.
pub open spec fn countdown_spec(since: int) -> Seq<char> {
    let (hours, minutes) = countdown_parts(since);
    if hours == 23 && minutes > 30 {
        "1 day"@
    } else if hours == 0 && minutes > 55 {
        "1 hour"@
    } else if hours == 0 {
        decimal(minutes as nat) + " minutes"@
    } else if hours == 1 {
        "1 hour"@
    } else {
        decimal(hours as nat) + " hours"@
    }
}

pub fn countdown_text(since: i64) -> (r: String)
    ensures
        r@ == countdown_spec(since as int),
{
    let total_minutes = (since / 60) as u32;
    let hours = total_minutes / 60;
    let minutes = total_minutes % 60;
    if hours == 23 && minutes > 30 {
        String::from_str("1 day")
    } else if hours == 0 && minutes > 55 {
        String::from_str("1 hour")
    } else if hours == 0 {
        let mut s = decimal_string(minutes);
        s.append(" minutes");
        s
    } else if hours == 1 {
        String::from_str("1 hour")
    } else {
        let mut s = decimal_string(hours);
        s.append(" hours");
        s
    }
}

/// The text of a reminder: "launched", or "launches in" and the countdown.
pub open spec fn notification_text_spec(reminder: Reminder, since: int) -> Seq<char> {
    match reminder {
        Reminder::Launched => "launched"@,
        _ => "launches in "@ + countdown_spec(since),
    }
}

pub fn notification_text(reminder: Reminder, since: i64) -> (r: String)
    ensures
        r@ == notification_text_spec(reminder, since as int),
{
    match reminder {
        Reminder::Launched => String::from_str("launched"),
        _ => {
            let mut s = String::from_str("launches in ");
            let countdown = countdown_text(since);
            s.append(countdown.as_str());
            s
        },
    }
}

/// The page with more about a launch.
pub open spec fn more_url_spec(slug: Seq<char>) -> Seq<char> {
    "https://spacelaunchnow.me/launch/"@ + slug
}

pub fn more_url(slug: &str) -> (r: String)
    ensures
        r@ == more_url_spec(slug@),
{
    let mut s = String::from_str("https://spacelaunchnow.me/launch/");
    s.append(slug);
    s
}

/// A notification to send, with the record to store for the launch.
pub struct PendingNotification {
    /// The launch's id, under which `record` is stored.
    pub id: String,
    /// The record of the launch with this reminder marked as sent.
    pub record: LaunchNotifications,
    pub reminder: Reminder,
    pub name: String,
    pub image_path: String,
    pub url: String,
    pub notification_text: String,
    /// The launch time, which the notification shows in local time.
    pub time: LaunchTime,
}

pub ghost struct PendingView {
    pub id: Seq<char>,
    pub record: LaunchNotificationsView,
    pub reminder: Reminder,
    pub name: Seq<char>,
    pub image_path: Seq<char>,
    pub url: Seq<char>,
    pub notification_text: Seq<char>,
    pub time: CivilTime,
}

impl View for PendingNotification {
    type V = PendingView;

    open spec fn view(&self) -> PendingView {
        PendingView {
            id: self.id@,
            record: self.record@,
            reminder: self.reminder,
            name: self.name@,
            image_path: self.image_path@,
            url: self.url@,
            notification_text: self.notification_text@,
            time: self.time@,
        }
    }
}

/// What to do about one launch.
pub enum LaunchAction {
    /// Nothing to send.
    Skip,
    /// Store the record and send the notification.
    Notify(PendingNotification),
    /// The feed entry lacks what the check needs (or carries a time that the
    /// parser cannot handle): the check stops here.
    Abort,
}

pub ghost enum ActionView {
    Skip,
    Notify(PendingView),
    Abort,
}

impl View for LaunchAction {
    type V = ActionView;

    open spec fn view(&self) -> ActionView {
        match self {
            LaunchAction::Skip => ActionView::Skip,
            LaunchAction::Notify(p) => ActionView::Notify(p@),
            LaunchAction::Abort => ActionView::Abort,
        }
    }
}

/// The records after a step, and what the step does.
pub ghost struct StepSpec {
    pub sent: Map<Seq<char>, LaunchNotificationsView>,
    pub action: ActionView,
}

pub open spec fn opt_view(s: Option<String>) -> Option<Seq<char>> {
    match s {
        Some(v) => Some(v@),
        None => None,
    }
}

/// The feed's status id of a launch, if it has one.
pub open spec fn status_id_of(launch: Result) -> Option<i64> {
    match launch.status {
        Some(status) => status.id,
        None => None,
    }
}

/// The step for a launch at time `t`, `since` seconds from now.
pub open spec fn step_at(
    sent: Map<Seq<char>, LaunchNotificationsView>,
    launch: Result,
    net: Seq<char>,
    t: CivilTime,
    since: int,
) -> StepSpec {
    if since > -3600 && launch.id is None {
        StepSpec { sent, action: ActionView::Abort }
    } else {
        match status_id_of(launch) {
            None => StepSpec { sent, action: ActionView::Abort },
            Some(status_id) => {
                let launched = launched_decision(status_id, since);
                if !launched && since >= 86400 {
                    StepSpec { sent, action: ActionView::Skip }
                } else {
                    match opt_view(launch.id) {
                        None => StepSpec { sent, action: ActionView::Abort },
                        Some(id) => if lookup_aborts(sent.get(id), net) {
                            StepSpec { sent, action: ActionView::Abort }
                        } else {
                            let looked_up = record_after_lookup(sent.get(id), net);
                            let (record, reminder) = claim_spec(looked_up, launched, since);
                            let sent2 = sent.insert(id, record);
                            match reminder {
                                None => StepSpec { sent: sent2, action: ActionView::Skip },
                                Some(k) => match (
                                    opt_view(launch.slug),
                                    opt_view(launch.name),
                                    opt_view(launch.image),
                                ) {
                                    (Some(slug), Some(name), Some(image)) => StepSpec {
                                        sent: sent2,
                                        action: ActionView::Notify(
                                            PendingView {
                                                id,
                                                record,
                                                reminder: k,
                                                name,
                                                image_path: image,
                                                url: more_url_spec(slug),
                                                notification_text: notification_text_spec(
                                                    k,
                                                    since,
                                                ),
                                                time: t,
                                            },
                                        ),
                                    },
                                    _ => StepSpec { sent: sent2, action: ActionView::Abort },
                                },
                            }
                        },
                    }
                }
            },
        }
    }
}

/// The step for one launch of the feed, checked at time `now`: a launch
/// without a time aborts; one whose time does not parse is skipped; one
/// whose time the parser cannot handle aborts; otherwise `step_at` decides.
pub open spec fn step_spec(
    sent: Map<Seq<char>, LaunchNotificationsView>,
    launch: Result,
    now: CivilTime,
) -> StepSpec {
    match opt_view(launch.net) {
        None => StepSpec { sent, action: ActionView::Abort },
        Some(net) => match time_parse_spec(net) {
            TimeParseSpec::Parsed(t) => step_at(
                sent,
                launch,
                net,
                t,
                seconds_between(t, now),
            ),
            TimeParseSpec::Aborts => StepSpec { sent, action: ActionView::Abort },
            _ => StepSpec { sent, action: ActionView::Skip },
        },
    }
}

/// Whether looking up the record of launch `id` now reported at `timestamp`
/// would make the parser abort.
fn lookup_would_abort(sent: &SentNotifications, id: &str, timestamp: &str) -> (r: bool)
    requires
        sent.wf(),
    ensures
        r == lookup_aborts(sent@.get(id@), timestamp@),
{
    match sent.get(id) {
        None => false,
        Some(kept) => {
            if kept.now || str_eq(kept.timestamp.as_str(), timestamp) {
                false
            } else {
                let previous_aborts = match try_parse_time(kept.timestamp.as_str()) {
                    TimeParse::Aborts => true,
                    _ => false,
                };
                let current_aborts = match try_parse_time(timestamp) {
                    TimeParse::Aborts => true,
                    _ => false,
                };
                previous_aborts || current_aborts
            }
        },
    }
}

/// Decides what to do about one launch of the feed at time `now`, and
/// updates the records of sent reminders accordingly (see `step_spec`).
pub fn check_launch(sent: &mut SentNotifications, launch: &Result, now: &LaunchTime) -> (r:
    LaunchAction)
    requires
        old(sent).wf(),
    ensures
        final(sent).wf(),
        final(sent)@ == step_spec(old(sent)@, *launch, now@).sent,
        r@ == step_spec(old(sent)@, *launch, now@).action,
{
    let net = match &launch.net {
        Some(net) => net,
        None => {
            return LaunchAction::Abort;
        },
    };
    let date_time = match try_parse_time(net.as_str()) {
        TimeParse::Parsed(t) => t,
        TimeParse::Failed(_) => {
            return LaunchAction::Skip;
        },
        TimeParse::Aborts => {
            return LaunchAction::Abort;
        },
    };
    let since = date_time.seconds_since(now);
    if since > -(60 * 60) && launch.id.is_none() {
        return LaunchAction::Abort;
    }
    let status_id = match &launch.status {
        Some(status) => match status.id {
            Some(id) => id,
            None => {
                return LaunchAction::Abort;
            },
        },
        None => {
            return LaunchAction::Abort;
        },
    };
    let launched = launch_has_happened(status_id, since);
    if !launched && since >= 24 * 60 * 60 {
        return LaunchAction::Skip;
    }
    let id = match &launch.id {
        Some(id) => id,
        None => {
            return LaunchAction::Abort;
        },
    };
    if lookup_would_abort(sent, id.as_str(), net.as_str()) {
        return LaunchAction::Abort;
    }
    let record = sent.get_sent(id.as_str(), net.as_str());
    let reminder = record.claim_reminder(launched, since);
    let snapshot = record.clone();
    match reminder {
        None => LaunchAction::Skip,
        Some(k) => match (&launch.slug, &launch.name, &launch.image) {
            (Some(slug), Some(name), Some(image)) => {
                let url = more_url(slug.as_str());
                let text = notification_text(k, since);
                LaunchAction::Notify(
                    PendingNotification {
                        id: id.clone(),
                        record: snapshot,
                        reminder: k,
                        name: name.clone(),
                        image_path: image.clone(),
                        url,
                        notification_text: text,
                        time: date_time,
                    },
                )
            },
            _ => LaunchAction::Abort,
        },
    }
}

} // verus!
