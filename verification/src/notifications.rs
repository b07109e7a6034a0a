//! The record of which reminders were already sent for each launch, keyed by
//! the launch's id, and how a changed launch time updates it.
use vstd::prelude::*;

use crate::string_map::{StringMap, insert_all, keys_unique, pairs_map};
use crate::text::str_eq;
use crate::time::{parse_time, seconds_between, time_parse_spec, trunc_div, TimeParseSpec};

verus! {

/// The reminders already sent for one launch, and the launch time they
/// were sent for.
pub struct LaunchNotifications {
    pub timestamp: String,
    pub one_day: bool,
    pub one_hour: bool,
    pub now: bool,
}

pub ghost struct LaunchNotificationsView {
    pub timestamp: Seq<char>,
    pub one_day: bool,
    pub one_hour: bool,
    pub now: bool,
}

impl View for LaunchNotifications {
    type V = LaunchNotificationsView;

    open spec fn view(&self) -> LaunchNotificationsView {
        LaunchNotificationsView {
            timestamp: self.timestamp@,
            one_day: self.one_day,
            one_hour: self.one_hour,
            now: self.now,
        }
    }
}

/// A record for a launch at `timestamp` with no reminder sent yet.
pub open spec fn fresh_record(timestamp: Seq<char>) -> LaunchNotificationsView {
    LaunchNotificationsView { timestamp, one_day: false, one_hour: false, now: false }
}

impl LaunchNotifications {
    pub fn new(timestamp: String) -> (r: Self)
        ensures
            r@ == fresh_record(timestamp@),
    {
        LaunchNotifications { timestamp, one_day: false, one_hour: false, now: false }
    }
}

impl Clone for LaunchNotifications {
    fn clone(&self) -> (r: Self)
        ensures
            r@ == self@,
    {
        LaunchNotifications {
            timestamp: self.timestamp.clone(),
            one_day: self.one_day,
            one_hour: self.one_hour,
            now: self.now,
        }
    }
}

/// The record after the launch it belongs to was reported at `timestamp`
/// instead, `moved` seconds earlier than before (negative when later): a
/// move earlier by five whole minutes or more starts the record afresh;
/// any other move keeps the reminders sent and takes the new time.
pub open spec fn rescheduled(
    record: LaunchNotificationsView,
    timestamp: Seq<char>,
    moved: int,
) -> LaunchNotificationsView {
    if trunc_div(moved, 60) >= 5 {
        fresh_record(timestamp)
    } else {
        LaunchNotificationsView { timestamp, ..record }
    }
}

/// The record that a lookup for a launch reported at `timestamp` hands out,
/// given the record kept so far (if any). A new launch gets a fresh record.
/// A record whose launch reminder went out, or whose time is unchanged, is
/// kept. Otherwise, when both times parse, the record is rescheduled by the
/// time between them; when either fails to parse, it is kept.
pub open spec fn record_after_lookup(
    kept: Option<LaunchNotificationsView>,
    timestamp: Seq<char>,
) -> LaunchNotificationsView {
    match kept {
        None => fresh_record(timestamp),
        Some(v) => if !v.now && v.timestamp != timestamp {
            match (time_parse_spec(v.timestamp), time_parse_spec(timestamp)) {
                (TimeParseSpec::Parsed(previous), TimeParseSpec::Parsed(new)) => rescheduled(
                    v,
                    timestamp,
                    seconds_between(previous, new),
                ),
                _ => v,
            }
        } else {
            v
        },
    }
}

/// The lookups on which the parser would abort on one of the two times.
pub open spec fn lookup_aborts(kept: Option<LaunchNotificationsView>, timestamp: Seq<char>) -> bool {
    match kept {
        None => false,
        Some(v) => !v.now && v.timestamp != timestamp && (time_parse_spec(v.timestamp) is Aborts
            || time_parse_spec(timestamp) is Aborts),
    }
}

/// Changing one value of a map changes its views at that key alone.
pub proof fn lemma_views_insert(
    m: Map<Seq<char>, LaunchNotifications>,
    k: Seq<char>,
    v: LaunchNotifications,
)
    ensures
        record_views(m.insert(k, v)) == record_views(m).insert(k, v@),
{
    assert(record_views(m.insert(k, v)) =~= record_views(m).insert(k, v@));
}

/// The records of all launches seen so far, by launch id.
pub struct SentNotifications {
    map: StringMap<LaunchNotifications>,
}

/// The views of the records of a map.
pub open spec fn record_views(m: Map<Seq<char>, LaunchNotifications>) -> Map<
    Seq<char>,
    LaunchNotificationsView,
> {
    m.map_values(|v: LaunchNotifications| v@)
}

impl View for SentNotifications {
    type V = Map<Seq<char>, LaunchNotificationsView>;

    closed spec fn view(&self) -> Map<Seq<char>, LaunchNotificationsView> {
        record_views(self.map@)
    }
}

impl SentNotifications {
    /// The invariant: one record per launch id.
    pub closed spec fn wf(&self) -> bool {
        self.map.wf()
    }

    /// No record yet.
    pub fn new() -> (r: Self)
        ensures
            r.wf(),
            r@ == Map::<Seq<char>, LaunchNotificationsView>::empty(),
    {
        let r = SentNotifications { map: StringMap::new() };
        assert(r@ =~= Map::<Seq<char>, LaunchNotificationsView>::empty());
        r
    }

    /// The records given as (launch id, record) pairs; a later pair replaces
    /// an earlier one with the same id.
    pub fn from_entries(pairs: Vec<(String, LaunchNotifications)>) -> (r: Self)
        ensures
            r.wf(),
            r@ == record_views(insert_all(pairs@)),
    {
        SentNotifications { map: StringMap::from_entries(pairs) }
    }

    /// The records as (launch id, record) pairs, ids distinct.
    pub fn into_entries(self) -> (pairs: Vec<(String, LaunchNotifications)>)
        requires
            self.wf(),
        ensures
            keys_unique(pairs@),
            record_views(pairs_map(pairs@)) == self@,
    {
        self.map.into_entries()
    }

    /// The record kept for `id`, if any.
    pub fn get(&self, id: &str) -> (r: Option<&LaunchNotifications>)
        requires
            self.wf(),
        ensures
            r is None <==> !self@.contains_key(id@),
            r matches Some(v) ==> v@ == self@[id@],
    {
        self.map.get(id)
    }

    /// Stores `input` as the record of launch `id`.
    pub fn record(&mut self, id: String, input: LaunchNotifications)
        requires
            old(self).wf(),
        ensures
            final(self).wf(),
            final(self)@ == old(self)@.insert(id@, input@),
    {
        let ghost iv = input@;
        self.map.insert(id, input);
        assert(self@ =~= old(self)@.insert(id@, iv));
    }

    /// The record of launch `id`, now reported at `timestamp`: created fresh
    /// for a new id, and otherwise updated as `record_after_lookup` says;
    /// the caller may change it further, and the map keeps what it ends as.
    pub fn get_sent(&mut self, id: &str, timestamp: &str) -> (r: &mut LaunchNotifications)
        requires
            old(self).wf(),
            !lookup_aborts(old(self)@.get(id@), timestamp@),
        ensures
            r@ == record_after_lookup(old(self)@.get(id@), timestamp@),
            final(self).wf(),
            final(self)@ == old(self)@.insert(id@, final(r)@),
    {
        let ghost before = self@;
        let ghost before_map = self.map@;
        match self.map.find(id) {
            Some(i) => {
                let ghost key = self.map.key_at(i as int);
                let ghost old_map = self.map@;
                let val = self.map.value_at_mut(i);
                proof {
                    assert(before.contains_key(id@));
                    assert(before[id@] == val@);
                }
                if !val.now && !str_eq(val.timestamp.as_str(), timestamp) {
                    let reset = match (parse_time(val.timestamp.as_str()), parse_time(timestamp)) {
                        (Ok(previous), Ok(new)) => {
                            // what chrono's `num_minutes` gives for the time between them
                            let reset = previous.seconds_since(&new) / 60 >= 5;
                            if !reset {
                                val.timestamp = timestamp.to_owned();
                            }
                            reset
                        },
                        _ => false,
                    };
                    if reset {
                        *val = LaunchNotifications::new(timestamp.to_owned());
                    }
                }
                proof {
                    lemma_views_insert(old_map, key, *final(val));
                }
                val
            },
            None => {
                let fresh = LaunchNotifications::new(timestamp.to_owned());
                let ghost fresh_copy = fresh;
                self.map.insert(id.to_owned(), fresh);
                let i = match self.map.find(id) {
                    Some(i) => i,
                    None => 0,  // the id was just inserted
                };
                let ghost mid = self.map@;
                proof {
                    lemma_views_insert(before_map, id@, fresh_copy);
                }
                let val = self.map.value_at_mut(i);
                proof {
                    lemma_views_insert(before_map, id@, *final(val));
                    assert(mid.insert(id@, *final(val)) =~= before_map.insert(id@, *final(val)));
                }
                val
            },
        }
    }
}

} // verus!
