//! What each reminder decision is for, stated by its numbers: which
//! reminder is due how long before a launch, what the countdown says, how a
//! moved launch time treats the marks, and which image extension is chosen.
use vstd::prelude::*;

use crate::images::image_extension_spec;
use crate::notifications::{LaunchNotificationsView, record_after_lookup};
use crate::planner::{
    ActionView, Reminder, claim_spec, countdown_spec, notification_text_spec, step_spec,
};
use crate::status::status_of_id;
use crate::text::{decimal, lemma_split_join, lemma_split_without_sep, split_at_char};
use crate::time::{CivilTime, TimeParseSpec, seconds_between, time_parse_spec};
use crate::upcoming_launch::Result;

verus! {

/// For a launch that has not launched, the hour reminder is the one due
/// exactly when the launch is less than 3600 seconds away and it was not
/// sent yet; the day reminder exactly when the launch is 3600 seconds or
/// more away and it was not sent yet. For a launched one, the launch
/// reminder is due exactly when it was not sent yet. Claiming marks the
/// reminder that is due and changes nothing else.
pub proof fn lemma_reminder_windows(r: LaunchNotificationsView, since: int)
    ensures
        (claim_spec(r, false, since).1 == Some(Reminder::WithinHour)) <==> (since < 3600
            && !r.one_hour),
        (claim_spec(r, false, since).1 == Some(Reminder::WithinDay)) <==> (since >= 3600
            && !r.one_day),
        claim_spec(r, false, since).1 != Some(Reminder::Launched),
        (claim_spec(r, true, since).1 == Some(Reminder::Launched)) <==> !r.now,
        claim_spec(r, true, since).1 is None || claim_spec(r, true, since).1 == Some(
            Reminder::Launched,
        ),
        claim_spec(r, false, since).0 == (LaunchNotificationsView {
            one_hour: r.one_hour || since < 3600,
            one_day: r.one_day || since >= 3600,
            ..r
        }),
        claim_spec(r, true, since).0 == (LaunchNotificationsView { now: true, ..r }),
{
}

/// A record that the launch's new time does not move five minutes or more
/// earlier keeps every mark and only takes the new time; one moved five
/// minutes or more earlier (before its launch reminder) starts afresh.
pub proof fn lemma_reschedule_keeps_marks(
    v: LaunchNotificationsView,
    timestamp: Seq<char>,
    previous: CivilTime,
    new: CivilTime,
)
    requires
        !v.now,
        v.timestamp != timestamp,
        time_parse_spec(v.timestamp) == TimeParseSpec::Parsed(previous),
        time_parse_spec(timestamp) == TimeParseSpec::Parsed(new),
    ensures
        seconds_between(previous, new) < 300 ==> record_after_lookup(Some(v), timestamp) == (
        LaunchNotificationsView {
            timestamp,
            one_day: v.one_day,
            one_hour: v.one_hour,
            now: v.now,
        }),
        seconds_between(previous, new) >= 300 ==> record_after_lookup(Some(v), timestamp) == (
        LaunchNotificationsView { timestamp, one_day: false, one_hour: false, now: false }),
{
}

/// The countdown of a launch `since` seconds (under a day) away: whole
/// minutes below 56 minutes, "1 hour" up to two hours, whole hours up to
/// 23 hours 31 minutes, and "1 day" after that.
pub proof fn lemma_countdown_words(since: int)
    requires
        0 <= since < 86400,
    ensures
        since < 56 * 60 ==> countdown_spec(since) == decimal((since / 60) as nat) + " minutes"@,
        56 * 60 <= since < 7200 ==> countdown_spec(since) == "1 hour"@,
        7200 <= since < 23 * 3600 + 31 * 60 ==> countdown_spec(since) == decimal(
            (since / 3600) as nat,
        ) + " hours"@,
        23 * 3600 + 31 * 60 <= since ==> countdown_spec(since) == "1 day"@,
{
    let total = since / 60;
    assert(total / 60 == since / 3600) by (nonlinear_arith)
        requires
            0 <= since,
            total == since / 60,
    ;
    assert((total as u32) as int == total);
    assert(((total as u32) / 60) as u32 as int == total / 60);
    assert(((total as u32) % 60) as u32 as int == total % 60);
    assert(23 * 3600 + 31 * 60 <= since ==> total / 60 == 23 && total % 60 > 30);
    assert(since < 23 * 3600 + 31 * 60 ==> (total / 60 < 23 || total % 60 <= 30));
}

/// The last `.`-piece of a URL written as `prefix.piece`.
proof fn lemma_last_piece(prefix: Seq<char>, piece: Seq<char>)
    requires
        forall|i: int| 0 <= i < piece.len() ==> piece[i] != '.',
    ensures
        split_at_char(prefix + seq!['.'] + piece, '.').last() == piece,
{
    lemma_split_join(prefix, piece, '.');
    lemma_split_without_sep(piece, '.');
}

/// Without a content type that names a known image type, an image whose
/// URL ends in `.jpg`, `.jpeg`, `.JPG` or `.JPEG` is saved as `jpg`, one
/// ending in `.png` as `png`, and any other ending gives no extension.
pub proof fn lemma_extension_by_url(
    content_type: Option<Seq<char>>,
    prefix: Seq<char>,
    piece: Seq<char>,
)
    requires
        forall|i: int| 0 <= i < piece.len() ==> piece[i] != '.',
        !(content_type matches Some(c) && (c == "image/jpeg"@ || c == "image/jpg"@ || c
            == "image/png"@)),
    ensures
        (piece == "jpg"@ || piece == "jpeg"@ || piece == "JPG"@ || piece == "JPEG"@)
            ==> image_extension_spec(content_type, prefix + seq!['.'] + piece) == Some(
            "jpg"@,
        ),
        piece == "png"@ ==> image_extension_spec(content_type, prefix + seq!['.'] + piece)
            == Some("png"@),
        !(piece == "jpg"@ || piece == "jpeg"@ || piece == "JPG"@ || piece == "JPEG"@ || piece
            == "png"@) ==> image_extension_spec(content_type, prefix + seq!['.'] + piece)
            is None,
{
    lemma_last_piece(prefix, piece);
    reveal_strlit("jpg");
    reveal_strlit("jpeg");
    reveal_strlit("JPG");
    reveal_strlit("JPEG");
    reveal_strlit("png");
    assert("png"@[0] != "jpg"@[0] && "png"@[0] != "JPG"@[0]);
    assert("png"@.len() != "jpeg"@.len() && "png"@.len() != "JPEG"@.len());
}

/// A content type of a known image type decides the extension whatever the
/// URL: `image/jpeg` and `image/jpg` give `jpg`, `image/png` gives `png`.
pub proof fn lemma_extension_by_content_type(url: Seq<char>)
    ensures
        image_extension_spec(Some("image/jpeg"@), url) == Some("jpg"@),
        image_extension_spec(Some("image/jpg"@), url) == Some("jpg"@),
        image_extension_spec(Some("image/png"@), url) == Some("png"@),
{
    reveal_strlit("image/jpeg");
    reveal_strlit("image/jpg");
    reveal_strlit("image/png");
    assert("image/png"@.len() != "image/jpeg"@.len());
    assert("image/png"@[6] != "image/jpg"@[6]);
}

/// A launch that has not launched by its status, less than a day away,
/// with a record that marks none of its reminders for this time (or no
/// record), gets a reminder whatever its status: the hour reminder under
/// 3600 seconds, the day reminder from 3600 seconds on, with the text
/// "launches in" and the countdown. A launched one gets the launch
/// reminder, "launched".
pub proof fn lemma_due_reminder_is_sent(
    sent: Map<Seq<char>, LaunchNotificationsView>,
    launch: Result,
    now: CivilTime,
    t: CivilTime,
    status_id: i64,
)
    requires
        launch.id is Some,
        launch.slug is Some,
        launch.name is Some,
        launch.image is Some,
        launch.net is Some,
        launch.status matches Some(st) && st.id == Some(status_id),
        time_parse_spec(launch.net->0@) == TimeParseSpec::Parsed(t),
        seconds_between(t, now) < 86400,
        seconds_between(t, now) > -3600,
        status_of_id((status_id as i32) as int) is Some,
        !sent.contains_key(launch.id->0@) || (sent[launch.id->0@].timestamp == launch.net->0@
            && !sent[launch.id->0@].one_day && !sent[launch.id->0@].one_hour
            && !sent[launch.id->0@].now),
    ensures
        ({
            let since = seconds_between(t, now);
            let launched = status_of_id((status_id as i32) as int)->0.launched();
            let expected = if launched {
                Reminder::Launched
            } else if since < 3600 {
                Reminder::WithinHour
            } else {
                Reminder::WithinDay
            };
            step_spec(sent, launch, now).action matches ActionView::Notify(p) && p.reminder
                == expected && p.id == launch.id->0@ && p.name == launch.name->0@ && p.image_path
                == launch.image->0@ && p.time == t && p.url == "https://spacelaunchnow.me/launch/"@
                + launch.slug->0@ && p.record.timestamp == launch.net->0@ && (p.record.now
                <==> launched) && (p.record.one_hour <==> (!launched && since < 3600)) && (
            p.record.one_day <==> (!launched && since >= 3600)) && step_spec(
                sent,
                launch,
                now,
            ).sent == sent.insert(launch.id->0@, p.record) && p.notification_text == (if launched {
                "launched"@
            } else {
                "launches in "@ + countdown_spec(since)
            })
        }),
{
    let id = launch.id->0@;
    assert(sent.get(id) is None || sent.get(id) == Some(sent[id]));
}

} // verus!
