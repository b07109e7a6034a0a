//! Properties that hold across checks of the same launch.
use vstd::prelude::*;

use crate::images::path_views;
use crate::notifications::{
    LaunchNotifications, LaunchNotificationsView, lookup_aborts, record_after_lookup, record_views,
};
use crate::string_map::{insert_all, keys_unique, lemma_entries_round_trip, pairs_map};
use crate::planner::{
    ActionView, Reminder, StepSpec, claim_spec, launched_decision, opt_view, status_id_of,
    step_spec,
};
use crate::time::{CivilTime, TimeParseSpec, seconds_between, time_parse_spec};
use crate::upcoming_launch::Result;

verus! {

/// Looking a record up again with the same launch time hands it out as it is.
pub proof fn lemma_lookup_settles(
    kept: Option<LaunchNotificationsView>,
    timestamp: Seq<char>,
    r: LaunchNotificationsView,
)
    requires
        !lookup_aborts(kept, timestamp),
        record_after_lookup(kept, timestamp).now ==> r.now,
        r.timestamp == record_after_lookup(kept, timestamp).timestamp,
    ensures
        !lookup_aborts(Some(r), timestamp),
        record_after_lookup(Some(r), timestamp) == r,
{
}

/// Checking a launch a second time at the same moment, with the records
/// that the first check left, sends nothing and changes nothing (unless
/// the first check aborted): no reminder goes out twice.
pub proof fn lemma_repeated_check_sends_nothing(
    sent: Map<Seq<char>, LaunchNotificationsView>,
    launch: Result,
    now: CivilTime,
)
    requires
        !(step_spec(sent, launch, now).action is Abort),
    ensures
        step_spec(step_spec(sent, launch, now).sent, launch, now) == (StepSpec {
            sent: step_spec(sent, launch, now).sent,
            action: ActionView::Skip,
        }),
{
    let first = step_spec(sent, launch, now);
    if let Some(net) = opt_view(launch.net) {
        if let TimeParseSpec::Parsed(t) = time_parse_spec(net) {
            let since = seconds_between(t, now);
            if let Some(status_id) = status_id_of(launch) {
                let launched = launched_decision(status_id, since);
                if launched || since < 86400 {
                    if let Some(id) = opt_view(launch.id) {
                        let looked_up = record_after_lookup(sent.get(id), net);
                        let (record, reminder) = claim_spec(looked_up, launched, since);
                        lemma_lookup_settles(sent.get(id), net, record);
                        assert(first.sent == sent.insert(id, record));
                        assert(first.sent.get(id) == Some(record));
                        assert(first.sent.insert(id, record) =~= first.sent);
                    }
                }
            }
        }
    }
}

/// Once the launch reminder went out for a launch, no later check sends it
/// again, and the record keeps that mark and its launch time.
pub proof fn lemma_launch_reminder_once(
    sent: Map<Seq<char>, LaunchNotificationsView>,
    launch: Result,
    now: CivilTime,
)
    requires
        launch.id is Some,
        sent.contains_key(launch.id->0@),
        sent[launch.id->0@].now,
    ensures
        !(step_spec(sent, launch, now).action matches ActionView::Notify(p) && p.reminder
            == Reminder::Launched),
        step_spec(sent, launch, now).sent.contains_key(launch.id->0@),
        step_spec(sent, launch, now).sent[launch.id->0@].now,
        step_spec(sent, launch, now).sent[launch.id->0@].timestamp
            == sent[launch.id->0@].timestamp,
{
}

/// While a launch keeps its time, a check only ever adds to the reminders
/// marked as sent for it.
pub proof fn lemma_marks_only_grow(
    sent: Map<Seq<char>, LaunchNotificationsView>,
    launch: Result,
    now: CivilTime,
)
    requires
        launch.id is Some,
        launch.net is Some,
        sent.contains_key(launch.id->0@),
        sent[launch.id->0@].timestamp == launch.net->0@,
    ensures
        ({
            let before = sent[launch.id->0@];
            let after = step_spec(sent, launch, now).sent[launch.id->0@];
            &&& step_spec(sent, launch, now).sent.contains_key(launch.id->0@)
            &&& after.timestamp == before.timestamp
            &&& before.one_day ==> after.one_day
            &&& before.one_hour ==> after.one_hour
            &&& before.now ==> after.now
        }),
{
}

/// A launch that has not happened and is a day or more away is left alone.
pub proof fn lemma_far_launch_untouched(
    sent: Map<Seq<char>, LaunchNotificationsView>,
    launch: Result,
    now: CivilTime,
    t: CivilTime,
)
    requires
        launch.net is Some,
        time_parse_spec(launch.net->0@) == TimeParseSpec::Parsed(t),
        seconds_between(t, now) >= 86400,
        status_id_of(launch) matches Some(status_id) && !launched_decision(
            status_id,
            seconds_between(t, now),
        ),
        launch.id is Some,
    ensures
        step_spec(sent, launch, now) == (StepSpec { sent, action: ActionView::Skip }),
{
}

/// Records rebuilt from the pairs that a set of records hands out (to be
/// saved) are those records: saving and loading loses and adds nothing.
pub proof fn lemma_records_round_trip(pairs: Seq<(String, LaunchNotifications)>)
    requires
        keys_unique(pairs),
    ensures
        record_views(insert_all(pairs)) == record_views(pairs_map(pairs)),
{
    lemma_entries_round_trip(pairs);
}

/// The same for the list of downloaded images.
pub proof fn lemma_images_round_trip(pairs: Seq<(String, String)>)
    requires
        keys_unique(pairs),
    ensures
        path_views(insert_all(pairs)) == path_views(pairs_map(pairs)),
{
    lemma_entries_round_trip(pairs);
}

/// The record stored for a launch is the one read back for it, and the
/// records of other launches stay as they were.
pub proof fn lemma_record_read_back(
    sent: Map<Seq<char>, LaunchNotificationsView>,
    id: Seq<char>,
    record: LaunchNotificationsView,
    other: Seq<char>,
)
    ensures
        sent.insert(id, record).contains_key(id),
        sent.insert(id, record)[id] == record,
        other != id ==> sent.insert(id, record).get(other) == sent.get(other),
{
}

/// Forgetting an image that was just added leaves the list as it was
/// before, when it had no image for that id.
pub proof fn lemma_image_add_then_remove(
    images: Map<Seq<char>, Seq<char>>,
    id: Seq<char>,
    path: Seq<char>,
)
    requires
        !images.contains_key(id),
    ensures
        images.insert(id, path).remove(id) == images,
{
    assert(images.insert(id, path).remove(id) =~= images);
}

/// Whether a record marks a reminder as sent.
pub open spec fn marked(r: LaunchNotificationsView, k: Reminder) -> bool {
    match k {
        Reminder::Launched => r.now,
        Reminder::WithinHour => r.one_hour,
        Reminder::WithinDay => r.one_day,
    }
}

/// The records kept on disk after one check of `launch`: the record of a
/// notification that went out is stored; nothing else is.
pub open spec fn stored_after(
    file: Map<Seq<char>, LaunchNotificationsView>,
    launch: Result,
    now: CivilTime,
) -> Map<Seq<char>, LaunchNotificationsView> {
    match step_spec(file, launch, now).action {
        ActionView::Notify(p) => file.insert(p.id, p.record),
        _ => file,
    }
}

/// How many reminders of kind `k` go out for `launch` over checks at the
/// times `nows`, each starting from the records stored by the ones before;
/// an aborted check ends the run.
pub open spec fn reminders_sent(
    file: Map<Seq<char>, LaunchNotificationsView>,
    launch: Result,
    nows: Seq<CivilTime>,
    k: Reminder,
) -> nat
    decreases nows.len(),
{
    if nows.len() == 0 {
        0
    } else {
        let step = step_spec(file, launch, nows[0]);
        if step.action is Abort {
            0
        } else {
            let here: nat = if step.action matches ActionView::Notify(p) && p.reminder == k {
                1
            } else {
                0
            };
            here + reminders_sent(stored_after(file, launch, nows[0]), launch, nows.drop_first(), k)
        }
    }
}

/// The stored record of the launch has reminder `k` marked, and a lookup
/// at the launch's time hands it out unchanged.
pub open spec fn settled(
    file: Map<Seq<char>, LaunchNotificationsView>,
    launch: Result,
    k: Reminder,
) -> bool {
    &&& launch.id is Some
    &&& launch.net is Some
    &&& file.contains_key(launch.id->0@)
    &&& marked(file[launch.id->0@], k)
    &&& !lookup_aborts(Some(file[launch.id->0@]), launch.net->0@)
    &&& record_after_lookup(Some(file[launch.id->0@]), launch.net->0@) == file[launch.id->0@]
}

/// A settled record stays settled, and its reminder does not go out.
proof fn lemma_settled_step(
    file: Map<Seq<char>, LaunchNotificationsView>,
    launch: Result,
    now: CivilTime,
    k: Reminder,
)
    requires
        settled(file, launch, k),
    ensures
        !(step_spec(file, launch, now).action matches ActionView::Notify(p) && p.reminder == k),
        settled(stored_after(file, launch, now), launch, k),
{
    let id = launch.id->0@;
    let net = launch.net->0@;
    let r = file[id];
    assert(file.get(id) == Some(r));
    if let TimeParseSpec::Parsed(t) = time_parse_spec(net) {
        let since = seconds_between(t, now);
        if let Some(status_id) = status_id_of(launch) {
            let launched = launched_decision(status_id, since);
            let (record, reminder) = claim_spec(r, launched, since);
            lemma_lookup_settles(Some(r), net, record);
            assert(file.insert(id, record).get(id) == Some(record));
        }
    }
}

proof fn lemma_settled_run(
    file: Map<Seq<char>, LaunchNotificationsView>,
    launch: Result,
    nows: Seq<CivilTime>,
    k: Reminder,
)
    requires
        settled(file, launch, k),
    ensures
        reminders_sent(file, launch, nows, k) == 0,
    decreases nows.len(),
{
    if nows.len() > 0 {
        lemma_settled_step(file, launch, nows[0], k);
        lemma_settled_run(stored_after(file, launch, nows[0]), launch, nows.drop_first(), k);
    }
}

/// A reminder that goes out leaves the stored record settled for it.
proof fn lemma_sent_settles(
    file: Map<Seq<char>, LaunchNotificationsView>,
    launch: Result,
    now: CivilTime,
    k: Reminder,
)
    requires
        launch.id is Some,
        launch.net is Some,
        step_spec(file, launch, now).action matches ActionView::Notify(p) && p.reminder == k,
    ensures
        settled(stored_after(file, launch, now), launch, k),
{
    let id = launch.id->0@;
    let net = launch.net->0@;
    if let TimeParseSpec::Parsed(t) = time_parse_spec(net) {
        let since = seconds_between(t, now);
        if let Some(status_id) = status_id_of(launch) {
            let launched = launched_decision(status_id, since);
            let looked_up = record_after_lookup(file.get(id), net);
            let (record, reminder) = claim_spec(looked_up, launched, since);
            lemma_lookup_settles(file.get(id), net, record);
            assert(file.insert(id, record).get(id) == Some(record));
        }
    }
}

/// Over any run of checks of a launch (same id and time in every feed), in
/// which each check starts from the records that the earlier ones stored,
/// each kind of reminder goes out at most once: the launch reminder, the
/// hour reminder and the day reminder.
pub proof fn lemma_each_reminder_at_most_once(
    file: Map<Seq<char>, LaunchNotificationsView>,
    launch: Result,
    nows: Seq<CivilTime>,
    k: Reminder,
)
    requires
        launch.id is Some,
        launch.net is Some,
    ensures
        reminders_sent(file, launch, nows, k) <= 1,
    decreases nows.len(),
{
    if nows.len() > 0 {
        let step = step_spec(file, launch, nows[0]);
        if !(step.action is Abort) {
            if step.action matches ActionView::Notify(p) && p.reminder == k {
                lemma_sent_settles(file, launch, nows[0], k);
                lemma_settled_run(stored_after(file, launch, nows[0]), launch, nows.drop_first(), k);
            } else {
                lemma_each_reminder_at_most_once(
                    stored_after(file, launch, nows[0]),
                    launch,
                    nows.drop_first(),
                    k,
                );
            }
        }
    }
}

/// A check of one launch leaves the records of every other launch id, in
/// memory and on disk, as they were.
pub proof fn lemma_other_launches_untouched(
    file: Map<Seq<char>, LaunchNotificationsView>,
    launch: Result,
    now: CivilTime,
    other: Seq<char>,
)
    requires
        !(launch.id matches Some(id) && id@ == other),
    ensures
        step_spec(file, launch, now).sent.get(other) == file.get(other),
        stored_after(file, launch, now).get(other) == file.get(other),
{
}

} // verus!
