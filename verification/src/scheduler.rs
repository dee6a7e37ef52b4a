//! The scheduling engine.
//!
//! There is no timer that fires at a switch time: on every tick the engine
//! works out, from the current moment, which mode the current time slot asks
//! for. A machine that slept, a clock that was set or drifted: the first tick
//! afterwards puts things right.
//!
//! Each time slot is asserted once. When the theme is changed from outside
//! within a slot (typically the system's own automatic light/dark switching),
//! the engine does not take control back: it only lets the wallpaper follow
//! and reports the conflict, since fighting the other scheduler would flip
//! the theme back and forth for ever.

use vstd::prelude::*;

use crate::clock::{resolve, weekday_of, weekday_of_day, LocalTime, Resolution};
use crate::config::{same_config, Config, Mode, Schedule, TimeRule, Weekday, LAST_MINUTE};
use crate::resources::BuiltinWallpapers;
use crate::text::{join, joined, texts};

verus! {

/// How many days before (or after) the current one the search for the
/// current (or next) switch looks at, besides the current day itself.
pub const SEARCH_DAYS: u32 = 8;

/// One switch of the schedule: at `at`, the system goes to `mode`.
/// `at` also identifies the time slot that the switch opens.
#[derive(Debug, Clone, Copy, PartialEq, Eq, Structural)]
pub struct Transition {
    pub at: LocalTime,
    pub mode: Mode,
}

/// Sunrise and sunset of one day. Both are absent on days of polar day or
/// polar night, which `polar` flags.
#[derive(Debug, Clone, Copy, PartialEq, Eq)]
pub struct SunTimes {
    pub sunrise: Option<LocalTime>,
    pub sunset: Option<LocalTime>,
    pub polar: bool,
}

/// Sun times known for a run of consecutive days: `days[k]` belongs to
/// calendar day `first_day + k`.
#[derive(Debug, Clone, PartialEq, Eq)]
pub struct SunWindow {
    pub first_day: i32,
    pub days: Vec<SunTimes>,
}

/// Sun times of a day with neither sunrise nor sunset known.
pub open spec fn no_sun() -> SunTimes {
    SunTimes { sunrise: None, sunset: None, polar: false }
}

impl SunWindow {
    /// The sun times that the window holds for `day`; none outside it.
    pub open spec fn sun_on(self, day: int) -> SunTimes {
        if self.first_day <= day < self.first_day + self.days@.len() {
            self.days@[day - self.first_day]
        } else {
            no_sun()
        }
    }

    /// A window that knows no day.
    pub fn empty() -> (res: SunWindow)
        ensures
            forall|day: int| res.sun_on(day) == no_sun(),
    {
        SunWindow { first_day: 0, days: Vec::new() }
    }

    /// The sun times that the window holds for `day`; none outside it.
    pub fn sun_for(&self, day: i32) -> (res: SunTimes)
        ensures
            res == self.sun_on(day as int),
    {
        if day < self.first_day {
            return SunTimes { sunrise: None, sunset: None, polar: false };
        }
        let offset: i64 = day as i64 - self.first_day as i64;
        if (offset as u64) < (self.days.len() as u64) {
            self.days[offset as usize]
        } else {
            SunTimes { sunrise: None, sunset: None, polar: false }
        }
    }
}

/// A window gives, for each day it covers, the entry kept for that very
/// day (entry `k` for day `first_day + k`), and for any other day neither
/// sunrise nor sunset.
pub proof fn law_window_gives_each_day_its_own_entry(window: SunWindow, day: int)
    ensures
        window.first_day <= day < window.first_day + window.days@.len() ==> window.sun_on(day)
            == window.days@[day - window.first_day],
        window.first_day <= day < window.first_day + window.days@.len() ==> forall|k: int|
            0 <= k < window.days@.len() && window.first_day + k == day ==> window.sun_on(day)
                == #[trigger] window.days@[k],
        !(window.first_day <= day < window.first_day + window.days@.len()) ==> window.sun_on(day).sunrise is None
            && window.sun_on(day).sunset is None,
{
}

/// `sorted` with `t` inserted after every element that is not later than
/// it: one step of a stable insertion sort by time.
pub open spec fn insert_by_time(sorted: Seq<Transition>, t: Transition) -> Seq<Transition>
    decreases sorted.len(),
{
    if sorted.len() == 0 {
        seq![t]
    } else if sorted.last().at.timestamp <= t.at.timestamp {
        sorted.push(t)
    } else {
        insert_by_time(sorted.drop_last(), t).push(sorted.last())
    }
}

/// The switches ordered by time; switches at the same time keep their order.
pub open spec fn sort_by_time(s: Seq<Transition>) -> Seq<Transition>
    decreases s.len(),
{
    if s.len() == 0 {
        s
    } else {
        insert_by_time(sort_by_time(s.drop_last()), s.last())
    }
}

/// The switches that the first `n` rules give on a day of the week
/// `weekday`, where `resolved[i]` is the moment that rule `i` resolves to.
pub open spec fn rule_switches(
    rules: Seq<TimeRule>,
    weekday: Weekday,
    resolved: Seq<Option<LocalTime>>,
    n: nat,
) -> Seq<Transition>
    decreases n,
{
    if n == 0 {
        Seq::empty()
    } else {
        let i = n - 1;
        let earlier = rule_switches(rules, weekday, resolved, (n - 1) as nat);
        if rules[i].days.admits(weekday) && resolved[i] is Some {
            earlier.push(Transition { at: resolved[i].unwrap(), mode: rules[i].mode })
        } else {
            earlier
        }
    }
}

/// The switches that sun times give: to light at sunrise, to dark at sunset.
pub open spec fn sun_switches(sun: SunTimes) -> Seq<Transition> {
    (if sun.sunrise is Some {
        seq![Transition { at: sun.sunrise.unwrap(), mode: Mode::Light }]
    } else {
        Seq::empty()
    }) + (if sun.sunset is Some {
        seq![Transition { at: sun.sunset.unwrap(), mode: Mode::Dark }]
    } else {
        Seq::empty()
    })
}

/// The switches of a schedule on calendar day `day`, in time order, given
/// the sun times of the day and the moments the fixed rules resolve to.
pub open spec fn day_switches(
    schedule: Schedule,
    day: int,
    sun: SunTimes,
    resolved: Seq<Option<LocalTime>>,
) -> Seq<Transition> {
    match schedule {
        Schedule::Fixed { rules } => sort_by_time(
            rule_switches(rules@, weekday_of_day(day), resolved, rules@.len()),
        ),
        Schedule::Sun { .. } => sort_by_time(sun_switches(sun)),
    }
}

/// A fixed rule gives a switch on calendar day `day`: its filter admits
/// the day of the week and its time lies within the day.
pub open spec fn fires_on(rule: TimeRule, day: int) -> bool {
    rule.days.admits(weekday_of_day(day)) && rule.minutes <= LAST_MINUTE
}

/// `asks` are the requests made to the local time zone for the fixed rules
/// of a schedule on `day`, and `resolved` the moments that the rules
/// resolve to: for each rule that fires on the day, a request for its
/// wall-clock time on the day and the moment that the time zone answered;
/// no request and no moment for any other rule. Every moment lies on the
/// day, at the wall-clock time of its rule.
pub open spec fn resolution_fits(
    schedule: Schedule,
    day: int,
    asks: Seq<Option<Resolution>>,
    resolved: Seq<Option<LocalTime>>,
) -> bool {
    match schedule {
        Schedule::Fixed { rules } => {
            &&& resolved.len() == rules@.len()
            &&& asks.len() == rules@.len()
            &&& forall|i: int|
                #![trigger resolved[i]]
                0 <= i < rules@.len() ==> if fires_on(rules@[i], day) {
                    &&& asks[i] is Some
                    &&& asks[i].unwrap().asked_day() == day
                    &&& asks[i].unwrap().asked_minutes() == rules@[i].minutes
                    &&& resolved[i] == asks[i].unwrap().outcome()
                } else {
                    asks[i] is None && resolved[i] is None
                }
            &&& forall|i: int|
                0 <= i < resolved.len() && #[trigger] resolved[i] is Some ==> resolved[i].unwrap().day
                    == day && resolved[i].unwrap().clock_minutes() == rules@[i].minutes
        },
        Schedule::Sun { .. } => true,
    }
}

/// `list` is what the schedule gives on `day`, the fixed rules resolved by
/// asking the local time zone (whose answers depend on the machine).
pub open spec fn switches_on(schedule: Schedule, day: int, sun: SunTimes, list: Seq<Transition>) -> bool {
    exists|asks: Seq<Option<Resolution>>, resolved: Seq<Option<LocalTime>>|
        #![trigger resolution_fits(schedule, day, asks, resolved)]
        resolution_fits(schedule, day, asks, resolved) && list == day_switches(
            schedule,
            day,
            sun,
            resolved,
        )
}

/// A sequence is in time order.
pub open spec fn is_time_ordered(s: Seq<Transition>) -> bool {
    forall|i: int, j: int| 0 <= i <= j < s.len() ==> s[i].at.timestamp <= s[j].at.timestamp
}

proof fn lemma_insert_position(s: Seq<Transition>, t: Transition, i: int)
    requires
        0 <= i <= s.len(),
        i == 0 || s[i - 1].at.timestamp <= t.at.timestamp,
        forall|j: int| i <= j < s.len() ==> s[j].at.timestamp > t.at.timestamp,
    ensures
        insert_by_time(s, t) == s.insert(i, t),
    decreases s.len() - i,
{
    if i == s.len() {
        assert(s.insert(i, t) =~= s.push(t));
    } else {
        lemma_insert_position(s.drop_last(), t, i);
        assert(s.insert(i, t) =~= s.drop_last().insert(i, t).push(s.last()));
    }
}

/// Inserts `t` into a list kept in time order, after every switch that is
/// not later than it.
fn insert_sorted(list: &mut Vec<Transition>, t: Transition)
    ensures
        final(list)@ == insert_by_time(old(list)@, t),
{
    let mut i = list.len();
    while i > 0 && list[i - 1].at.timestamp > t.at.timestamp
        invariant
            i <= list.len(),
            forall|j: int| i <= j < list@.len() ==> list@[j].at.timestamp > t.at.timestamp,
        decreases i,
    {
        i = i - 1;
    }
    proof {
        lemma_insert_position(list@, t, i as int);
    }
    list.insert(i, t);
}

/// The switches of a schedule on calendar day `day`, in time order, given
/// the sun times of the day and, for a fixed schedule, the moment that each
/// rule resolves to (`resolved[i]` for rule `i`; rules that do not fire on
/// the day are not looked at).
pub fn day_plan(schedule: &Schedule, day: i32, sun: SunTimes, resolved: &Vec<Option<LocalTime>>) -> (res: Vec<Transition>)
    requires
        schedule matches Schedule::Fixed { rules } ==> resolved@.len() == rules@.len(),
    ensures
        res@ == day_switches(*schedule, day as int, sun, resolved@),
        is_time_ordered(res@),
{
    let mut out: Vec<Transition> = Vec::new();
    match schedule {
        Schedule::Fixed { rules } => {
            let weekday = weekday_of(day);
            let mut i: usize = 0;
            while i < rules.len()
                invariant
                    i <= rules@.len(),
                    resolved@.len() == rules@.len(),
                    weekday == weekday_of_day(day as int),
                    out@ == sort_by_time(rule_switches(rules@, weekday, resolved@, i as nat)),
                decreases rules.len() - i,
            {
                let rule = rules[i];
                if rule.days.matches(weekday) {
                    if let Some(at) = resolved[i] {
                        let ghost before = rule_switches(rules@, weekday, resolved@, i as nat);
                        insert_sorted(&mut out, Transition { at, mode: rule.mode });
                        proof {
                            let after = before.push(Transition { at, mode: rule.mode });
                            assert(after.drop_last() =~= before);
                            assert(rule_switches(rules@, weekday, resolved@, (i + 1) as nat) == after);
                        }
                    }
                }
                i = i + 1;
            }
        },
        Schedule::Sun { .. } => {
            let ghost empty: Seq<Transition> = Seq::empty();
            if let Some(at) = sun.sunrise {
                insert_sorted(&mut out, Transition { at, mode: Mode::Light });
            }
            if let Some(at) = sun.sunset {
                insert_sorted(&mut out, Transition { at, mode: Mode::Dark });
            }
            proof {
                reveal_with_fuel(sort_by_time, 3);
                reveal_with_fuel(insert_by_time, 2);
                let s = sun_switches(sun);
                if sun.sunrise is Some {
                    let rise = Transition { at: sun.sunrise.unwrap(), mode: Mode::Light };
                    assert(seq![rise].drop_last() =~= empty);
                    assert(sort_by_time(seq![rise]) == seq![rise]);
                    if sun.sunset is Some {
                        let set = Transition { at: sun.sunset.unwrap(), mode: Mode::Dark };
                        assert(s =~= seq![rise, set]);
                        assert(s.drop_last() =~= seq![rise]);
                    } else {
                        assert(s =~= seq![rise]);
                    }
                } else {
                    if sun.sunset is Some {
                        let set = Transition { at: sun.sunset.unwrap(), mode: Mode::Dark };
                        assert(s =~= seq![set]);
                        assert(s.drop_last() =~= empty);
                    } else {
                        assert(s =~= empty);
                    }
                }
            }
        },
    }
    proof {
        law_day_switches_are_time_ordered(*schedule, day as int, sun, resolved@);
    }
    out
}

/// The switches of the configured schedule on calendar day `day`, in time
/// order. A sun schedule takes the sun times of the day from `sun`. The
/// times of the fixed rules are resolved in the local time zone; a time that
/// does not exist on the day (the clock jumps forward) gives no switch.
pub fn transitions_on(cfg: &Config, day: i32, sun: &SunWindow) -> (res: Vec<Transition>)
    ensures
        switches_on(cfg.schedule, day as int, sun.sun_on(day as int), res@),
        is_time_ordered(res@),
{
    let sun_today = sun.sun_for(day);
    let mut resolved: Vec<Option<LocalTime>> = Vec::new();
    let ghost mut asks: Seq<Option<Resolution>> = Seq::empty();
    if let Schedule::Fixed { rules } = &cfg.schedule {
        let weekday = weekday_of(day);
        let mut i: usize = 0;
        while i < rules.len()
            invariant
                i <= rules@.len(),
                weekday == weekday_of_day(day as int),
                resolved@.len() == i,
                asks.len() == i,
                forall|j: int|
                    #![trigger resolved@[j]]
                    0 <= j < i ==> if fires_on(rules@[j], day as int) {
                        &&& asks[j] is Some
                        &&& asks[j].unwrap().asked_day() == day
                        &&& asks[j].unwrap().asked_minutes() == rules@[j].minutes
                        &&& resolved@[j] == asks[j].unwrap().outcome()
                    } else {
                        asks[j] is None && resolved@[j] is None
                    },
                forall|j: int|
                    0 <= j < i && #[trigger] resolved@[j] is Some ==> resolved@[j].unwrap().day
                        == day && resolved@[j].unwrap().clock_minutes() == rules@[j].minutes,
            decreases rules.len() - i,
        {
            let rule = rules[i];
            if rule.days.matches(weekday) && rule.minutes <= LAST_MINUTE {
                let hour = rule.minutes / 60;
                let minute = rule.minutes % 60;
                assert(hour * 60 + minute == rule.minutes);
                let answer = resolve(day, hour, minute);
                resolved.push(answer.moment());
                proof {
                    asks = asks.push(Some(answer));
                }
            } else {
                resolved.push(None);
                proof {
                    asks = asks.push(None);
                }
            }
            i = i + 1;
        }
    }
    let res = day_plan(&cfg.schedule, day, sun_today, &resolved);
    proof {
        assert(resolution_fits(cfg.schedule, day as int, asks, resolved@));
        assert(res@ == day_switches(cfg.schedule, day as int, sun.sun_on(day as int), resolved@));
    }
    res
}

/// The last switch of `list` that is due at `now` (not later than it).
pub open spec fn latest_due(list: Seq<Transition>, now: i64) -> Option<Transition>
    decreases list.len(),
{
    if list.len() == 0 {
        None
    } else if list.last().at.timestamp <= now {
        Some(list.last())
    } else {
        latest_due(list.drop_last(), now)
    }
}

/// The first switch of `list` that is still to come at `now` (later than it).
pub open spec fn first_upcoming(list: Seq<Transition>, now: i64) -> Option<Transition>
    decreases list.len(),
{
    if list.len() == 0 {
        None
    } else if list[0].at.timestamp > now {
        Some(list[0])
    } else {
        first_upcoming(list.drop_first(), now)
    }
}

/// The current switch found in consecutive days, searched from the first:
/// the latest one due in the first day that has one due.
pub open spec fn current_from(days: Seq<Seq<Transition>>, now: i64) -> Option<Transition>
    decreases days.len(),
{
    if days.len() == 0 {
        None
    } else if latest_due(days[0], now) is Some {
        latest_due(days[0], now)
    } else {
        current_from(days.drop_first(), now)
    }
}

/// The next switch found in consecutive days, searched from the first: the
/// first one to come in the first day that has one to come.
pub open spec fn next_from(days: Seq<Seq<Transition>>, now: i64) -> Option<Transition>
    decreases days.len(),
{
    if days.len() == 0 {
        None
    } else if first_upcoming(days[0], now) is Some {
        first_upcoming(days[0], now)
    } else {
        next_from(days.drop_first(), now)
    }
}

/// `slot` is the switch whose time slot contains `now`: searched in the
/// current day and up to eight days before it, the days' switches being
/// what the schedule gives on them.
pub open spec fn is_current_slot(cfg: Config, now: LocalTime, sun: SunWindow, slot: Option<Transition>) -> bool {
    exists|days: Seq<Seq<Transition>>|
        {
            &&& days.len() <= SEARCH_DAYS + 1
            &&& slot is None ==> days.len() == SEARCH_DAYS + 1
            &&& forall|k: int|
                0 <= k < days.len() ==> switches_on(
                    cfg.schedule,
                    now.day - k,
                    sun.sun_on(now.day - k),
                    #[trigger] days[k],
                )
            &&& slot == #[trigger] current_from(days, now.timestamp)
        }
}

/// `next` is the first switch after `now`: searched in the current day and
/// up to eight days after it, the days' switches being what the schedule
/// gives on them.
pub open spec fn is_next_switch(cfg: Config, now: LocalTime, sun: SunWindow, next: Option<Transition>) -> bool {
    exists|days: Seq<Seq<Transition>>|
        {
            &&& days.len() <= SEARCH_DAYS + 1
            &&& next is None ==> days.len() == SEARCH_DAYS + 1
            &&& forall|k: int|
                0 <= k < days.len() ==> switches_on(
                    cfg.schedule,
                    now.day + k,
                    sun.sun_on(now.day + k),
                    #[trigger] days[k],
                )
            &&& next == #[trigger] next_from(days, now.timestamp)
        }
}

proof fn lemma_latest_due(list: Seq<Transition>, now: i64)
    ensures
        latest_due(list, now) matches Some(t) ==> t.at.timestamp <= now && list.contains(t),
    decreases list.len(),
{
    if list.len() > 0 && list.last().at.timestamp > now {
        lemma_latest_due(list.drop_last(), now);
        if let Some(t) = latest_due(list.drop_last(), now) {
            let i = choose|i: int| 0 <= i < list.drop_last().len() && list.drop_last()[i] == t;
            assert(list[i] == t);
        }
    } else if list.len() > 0 {
        assert(list[list.len() - 1] == list.last());
    }
}

proof fn lemma_first_upcoming(list: Seq<Transition>, now: i64)
    ensures
        first_upcoming(list, now) matches Some(t) ==> t.at.timestamp > now && list.contains(t),
    decreases list.len(),
{
    if list.len() > 0 && list[0].at.timestamp <= now {
        lemma_first_upcoming(list.drop_first(), now);
        if let Some(t) = first_upcoming(list.drop_first(), now) {
            let i = choose|i: int| 0 <= i < list.drop_first().len() && list.drop_first()[i] == t;
            assert(list[i + 1] == t);
        }
    }
}

proof fn lemma_current_from_push(days: Seq<Seq<Transition>>, list: Seq<Transition>, now: i64)
    ensures
        current_from(days.push(list), now) == if current_from(days, now) is Some {
            current_from(days, now)
        } else {
            latest_due(list, now)
        },
    decreases days.len(),
{
    if days.len() > 0 {
        assert(days.push(list).drop_first() =~= days.drop_first().push(list));
        assert(days.push(list)[0] == days[0]);
        lemma_current_from_push(days.drop_first(), list, now);
    } else {
        assert(days.push(list).drop_first() =~= Seq::<Seq<Transition>>::empty());
        assert(days.push(list)[0] == list);
        assert(current_from(days.push(list).drop_first(), now) is None);
    }
}

proof fn lemma_next_from_push(days: Seq<Seq<Transition>>, list: Seq<Transition>, now: i64)
    ensures
        next_from(days.push(list), now) == if next_from(days, now) is Some {
            next_from(days, now)
        } else {
            first_upcoming(list, now)
        },
    decreases days.len(),
{
    if days.len() > 0 {
        assert(days.push(list).drop_first() =~= days.drop_first().push(list));
        assert(days.push(list)[0] == days[0]);
        lemma_next_from_push(days.drop_first(), list, now);
    } else {
        assert(days.push(list).drop_first() =~= Seq::<Seq<Transition>>::empty());
        assert(days.push(list)[0] == list);
        assert(next_from(days.push(list).drop_first(), now) is None);
    }
}

/// A switch due on any of the searched days is never missed: the search
/// then finds a current slot (which is why a rule that rests over a weekend
/// keeps holding across it).
pub proof fn law_search_finds_a_due_switch(days: Seq<Seq<Transition>>, now: i64, k: int)
    requires
        0 <= k < days.len(),
        latest_due(days[k], now) is Some,
    ensures
        current_from(days, now) is Some,
    decreases k,
{
    if k > 0 && latest_due(days[0], now) is None {
        assert(days.drop_first()[k - 1] == days[k]);
        law_search_finds_a_due_switch(days.drop_first(), now, k - 1);
    }
}

/// A switch to come on any of the searched days is never missed: the search
/// then finds a next switch.
pub proof fn law_search_finds_an_upcoming_switch(days: Seq<Seq<Transition>>, now: i64, k: int)
    requires
        0 <= k < days.len(),
        first_upcoming(days[k], now) is Some,
    ensures
        next_from(days, now) is Some,
    decreases k,
{
    if k > 0 && first_upcoming(days[0], now) is None {
        assert(days.drop_first()[k - 1] == days[k]);
        law_search_finds_an_upcoming_switch(days.drop_first(), now, k - 1);
    }
}

/// The switch due at `now` is the last one of the list (by position) that
/// is not later than `now`: it is in the list, it is due, and every switch
/// after it is still to come. There is none only when nothing is due.
pub proof fn law_latest_due_is_the_last_due(list: Seq<Transition>, now: i64)
    ensures
        latest_due(list, now) matches Some(t) ==> exists|i: int|
            0 <= i < list.len() && #[trigger] list[i] == t && t.at.timestamp <= now && forall|j: int|
                i < j < list.len() ==> #[trigger] list[j].at.timestamp > now,
        latest_due(list, now) is None ==> forall|j: int|
            0 <= j < list.len() ==> #[trigger] list[j].at.timestamp > now,
    decreases list.len(),
{
    if list.len() > 0 {
        let rest = list.drop_last();
        law_latest_due_is_the_last_due(rest, now);
        if list.last().at.timestamp <= now {
            assert(list[list.len() - 1] == list.last());
        } else {
            if let Some(t) = latest_due(rest, now) {
                let i = choose|i: int|
                    0 <= i < rest.len() && #[trigger] rest[i] == t && t.at.timestamp <= now
                        && forall|j: int| i < j < rest.len() ==> #[trigger] rest[j].at.timestamp > now;
                assert(list[i] == t);
                assert forall|j: int| i < j < list.len() implies #[trigger] list[j].at.timestamp
                    > now by {
                    if j < rest.len() {
                        assert(list[j] == rest[j]);
                    }
                }
            } else {
                assert forall|j: int| 0 <= j < list.len() implies #[trigger] list[j].at.timestamp
                    > now by {
                    if j < rest.len() {
                        assert(list[j] == rest[j]);
                    }
                }
            }
        }
    }
}

/// The next switch after `now` is the first one of the list (by position)
/// that is later than `now`: it is in the list, still to come, and every
/// switch before it is due. There is none only when nothing is to come.
pub proof fn law_first_upcoming_is_the_first_to_come(list: Seq<Transition>, now: i64)
    ensures
        first_upcoming(list, now) matches Some(t) ==> exists|i: int|
            0 <= i < list.len() && #[trigger] list[i] == t && t.at.timestamp > now && forall|j: int|
                0 <= j < i ==> #[trigger] list[j].at.timestamp <= now,
        first_upcoming(list, now) is None ==> forall|j: int|
            0 <= j < list.len() ==> #[trigger] list[j].at.timestamp <= now,
    decreases list.len(),
{
    if list.len() > 0 {
        let rest = list.drop_first();
        law_first_upcoming_is_the_first_to_come(rest, now);
        if list[0].at.timestamp > now {
        } else {
            if let Some(t) = first_upcoming(rest, now) {
                let i = choose|i: int|
                    0 <= i < rest.len() && #[trigger] rest[i] == t && t.at.timestamp > now
                        && forall|j: int| 0 <= j < i ==> #[trigger] rest[j].at.timestamp <= now;
                assert(list[i + 1] == t);
                assert forall|j: int| 0 <= j < i + 1 implies #[trigger] list[j].at.timestamp
                    <= now by {
                    if j > 0 {
                        assert(list[j] == rest[j - 1]);
                    }
                }
            } else {
                assert forall|j: int| 0 <= j < list.len() implies #[trigger] list[j].at.timestamp
                    <= now by {
                    if j > 0 {
                        assert(list[j] == rest[j - 1]);
                    }
                }
            }
        }
    }
}

/// The search through consecutive days takes the first day (from the
/// start) that has a switch due, and that day's switch due: every day
/// before it has none.
pub proof fn law_search_takes_the_first_day_with_a_due_switch(days: Seq<Seq<Transition>>, now: i64)
    ensures
        current_from(days, now) is Some ==> exists|k: int|
            0 <= k < days.len() && current_from(days, now) == #[trigger] latest_due(days[k], now)
                && forall|j: int| 0 <= j < k ==> #[trigger] latest_due(days[j], now) is None,
        current_from(days, now) is None ==> forall|j: int|
            0 <= j < days.len() ==> #[trigger] latest_due(days[j], now) is None,
        next_from(days, now) is Some ==> exists|k: int|
            0 <= k < days.len() && next_from(days, now) == #[trigger] first_upcoming(days[k], now)
                && forall|j: int| 0 <= j < k ==> #[trigger] first_upcoming(days[j], now) is None,
        next_from(days, now) is None ==> forall|j: int|
            0 <= j < days.len() ==> #[trigger] first_upcoming(days[j], now) is None,
    decreases days.len(),
{
    if days.len() > 0 {
        let rest = days.drop_first();
        law_search_takes_the_first_day_with_a_due_switch(rest, now);
        assert forall|j: int| 0 < j < days.len() implies days[j] == rest[j - 1] by {}
        if latest_due(days[0], now) is None && current_from(rest, now) is Some {
            let k = choose|k: int|
                0 <= k < rest.len() && current_from(rest, now) == #[trigger] latest_due(rest[k], now)
                    && forall|j: int| 0 <= j < k ==> #[trigger] latest_due(rest[j], now) is None;
            assert(latest_due(days[k + 1], now) == latest_due(rest[k], now));
            assert forall|j: int| 0 <= j < k + 1 implies #[trigger] latest_due(days[j], now) is None by {
                if j > 0 {
                    assert(days[j] == rest[j - 1]);
                }
            }
        }
        if latest_due(days[0], now) is Some {
            assert(latest_due(days[0], now) == current_from(days, now));
        }
        if first_upcoming(days[0], now) is None && next_from(rest, now) is Some {
            let k = choose|k: int|
                0 <= k < rest.len() && next_from(rest, now) == #[trigger] first_upcoming(rest[k], now)
                    && forall|j: int| 0 <= j < k ==> #[trigger] first_upcoming(rest[j], now) is None;
            assert(first_upcoming(days[k + 1], now) == first_upcoming(rest[k], now));
            assert forall|j: int| 0 <= j < k + 1 implies #[trigger] first_upcoming(days[j], now) is None by {
                if j > 0 {
                    assert(days[j] == rest[j - 1]);
                }
            }
        }
        if first_upcoming(days[0], now) is Some {
            assert(first_upcoming(days[0], now) == next_from(days, now));
        }
    }
}

/// A sun schedule switches to light at sunrise and to dark at sunset, each
/// when the day has it, and at no other time.
pub proof fn law_sun_schedule_switches_at_sunrise_and_sunset(
    schedule: Schedule,
    day: int,
    sun: SunTimes,
    resolved: Seq<Option<LocalTime>>,
)
    requires
        schedule is Sun,
    ensures
        day_switches(schedule, day, sun, resolved).len() == (if sun.sunrise is Some {
            1int
        } else {
            0
        }) + (if sun.sunset is Some {
            1int
        } else {
            0
        }),
        sun.sunrise matches Some(rise) ==> day_switches(schedule, day, sun, resolved).contains(
            Transition { at: rise, mode: Mode::Light },
        ),
        sun.sunset matches Some(set) ==> day_switches(schedule, day, sun, resolved).contains(
            Transition { at: set, mode: Mode::Dark },
        ),
        forall|i: int|
            0 <= i < day_switches(schedule, day, sun, resolved).len() ==> {
                let t = #[trigger] day_switches(schedule, day, sun, resolved)[i];
                (t.mode == Mode::Light && sun.sunrise == Some(t.at)) || (t.mode == Mode::Dark
                    && sun.sunset == Some(t.at))
            },
{
    reveal_with_fuel(sort_by_time, 3);
    reveal_with_fuel(insert_by_time, 2);
    let empty: Seq<Transition> = Seq::empty();
    let list = day_switches(schedule, day, sun, resolved);
    let s = sun_switches(sun);
    if sun.sunrise is Some {
        let rise = Transition { at: sun.sunrise.unwrap(), mode: Mode::Light };
        assert(seq![rise].drop_last() =~= empty);
        assert(sort_by_time(seq![rise]) == seq![rise]);
        if sun.sunset is Some {
            let set = Transition { at: sun.sunset.unwrap(), mode: Mode::Dark };
            assert(s =~= seq![rise, set]);
            assert(s.drop_last() =~= seq![rise]);
            if rise.at.timestamp <= set.at.timestamp {
                assert(list =~= seq![rise, set]);
                assert(list[0] == rise && list[1] == set);
            } else {
                assert(seq![rise].drop_last() =~= empty);
                assert(list =~= seq![set, rise]);
                assert(list[0] == set && list[1] == rise);
            }
        } else {
            assert(s =~= seq![rise]);
            assert(list[0] == rise);
        }
    } else {
        if sun.sunset is Some {
            let set = Transition { at: sun.sunset.unwrap(), mode: Mode::Dark };
            assert(s =~= seq![set]);
            assert(s.drop_last() =~= empty);
            assert(list[0] == set);
        } else {
            assert(s =~= empty);
        }
    }
}

proof fn lemma_current_from_is_due(days: Seq<Seq<Transition>>, now: i64)
    ensures
        current_from(days, now) matches Some(t) ==> t.at.timestamp <= now,
    decreases days.len(),
{
    if days.len() > 0 {
        lemma_latest_due(days[0], now);
        lemma_current_from_is_due(days.drop_first(), now);
    }
}

proof fn lemma_next_from_is_upcoming(days: Seq<Seq<Transition>>, now: i64)
    ensures
        next_from(days, now) matches Some(t) ==> t.at.timestamp > now,
    decreases days.len(),
{
    if days.len() > 0 {
        lemma_first_upcoming(days[0], now);
        lemma_next_from_is_upcoming(days.drop_first(), now);
    }
}

/// At any moment the current switch lies before the next one: the first is
/// due, the second still to come.
pub proof fn law_current_switch_precedes_next(
    cfg: Config,
    now: LocalTime,
    sun: SunWindow,
    current: Transition,
    next: Transition,
)
    requires
        is_current_slot(cfg, now, sun, Some(current)),
        is_next_switch(cfg, now, sun, Some(next)),
    ensures
        current.at.timestamp <= now.timestamp < next.at.timestamp,
{
    let back = choose|days: Seq<Seq<Transition>>|
        {
            &&& days.len() <= SEARCH_DAYS + 1
            &&& Some(current) is None ==> days.len() == SEARCH_DAYS + 1
            &&& forall|k: int|
                0 <= k < days.len() ==> switches_on(
                    cfg.schedule,
                    now.day - k,
                    sun.sun_on(now.day - k),
                    #[trigger] days[k],
                )
            &&& Some(current) == #[trigger] current_from(days, now.timestamp)
        };
    let ahead = choose|days: Seq<Seq<Transition>>|
        {
            &&& days.len() <= SEARCH_DAYS + 1
            &&& Some(next) is None ==> days.len() == SEARCH_DAYS + 1
            &&& forall|k: int|
                0 <= k < days.len() ==> switches_on(
                    cfg.schedule,
                    now.day + k,
                    sun.sun_on(now.day + k),
                    #[trigger] days[k],
                )
            &&& Some(next) == #[trigger] next_from(days, now.timestamp)
        };
    lemma_current_from_is_due(back, now.timestamp);
    lemma_next_from_is_upcoming(ahead, now.timestamp);
}

/// The last switch of `list` that is due at `now` (not later than it).
pub fn latest_due_transition(list: &Vec<Transition>, now: i64) -> (res: Option<Transition>)
    ensures
        res == latest_due(list@, now),
{
    let mut i = list.len();
    assert(list@.take(i as int) =~= list@);
    while i > 0
        invariant
            i <= list@.len(),
            latest_due(list@, now) == latest_due(list@.take(i as int), now),
        decreases i,
    {
        let t = list[i - 1];
        proof {
            assert(list@.take(i as int).drop_last() =~= list@.take(i - 1));
        }
        if t.at.timestamp <= now {
            return Some(t);
        }
        i = i - 1;
    }
    proof {
        assert(list@.take(0) =~= Seq::<Transition>::empty());
    }
    None
}

/// The first switch of `list` that is still to come at `now` (later than it).
pub fn first_upcoming_transition(list: &Vec<Transition>, now: i64) -> (res: Option<Transition>)
    ensures
        res == first_upcoming(list@, now),
{
    let mut i: usize = 0;
    assert(list@.skip(0) =~= list@);
    while i < list.len()
        invariant
            i <= list@.len(),
            first_upcoming(list@, now) == first_upcoming(list@.skip(i as int), now),
        decreases list.len() - i,
    {
        let t = list[i];
        proof {
            assert(list@.skip(i as int).drop_first() =~= list@.skip(i + 1));
            assert(list@.skip(i as int)[0] == t);
        }
        if t.at.timestamp > now {
            return Some(t);
        }
        i = i + 1;
    }
    None
}

/// The switch whose time slot contains `now`: the latest one due, looked
/// for in the current day and then up to eight days back, so that a rule
/// that does not fire on some days (say, not at the weekend) keeps holding
/// over them.
pub fn current_transition(cfg: &Config, now: LocalTime, sun: &SunWindow) -> (res: Option<Transition>)
    requires
        now.day >= i32::MIN + SEARCH_DAYS,
    ensures
        is_current_slot(*cfg, now, *sun, res),
        res matches Some(t) ==> t.at.timestamp <= now.timestamp,
{
    let ghost mut seen: Seq<Seq<Transition>> = Seq::empty();
    let mut back: u32 = 0;
    while back <= SEARCH_DAYS
        invariant
            back <= SEARCH_DAYS + 1,
            now.day >= i32::MIN + SEARCH_DAYS,
            seen.len() == back,
            forall|k: int|
                0 <= k < seen.len() ==> switches_on(
                    cfg.schedule,
                    now.day - k,
                    sun.sun_on(now.day - k),
                    #[trigger] seen[k],
                ),
            current_from(seen, now.timestamp) is None,
        decreases SEARCH_DAYS + 1 - back,
    {
        let day = now.day - back as i32;
        let list = transitions_on(cfg, day, sun);
        let found = latest_due_transition(&list, now.timestamp);
        proof {
            lemma_current_from_push(seen, list@, now.timestamp);
            seen = seen.push(list@);
        }
        if found.is_some() {
            proof {
                lemma_latest_due(list@, now.timestamp);
                assert(current_from(seen, now.timestamp) == found);
            }
            return found;
        }
        back = back + 1;
    }
    proof {
        assert(current_from(seen, now.timestamp) is None);
    }
    None
}

/// The next switch after `now`: the first one to come, looked for in the
/// current day and then up to eight days ahead.
pub fn next_transition(cfg: &Config, now: LocalTime, sun: &SunWindow) -> (res: Option<Transition>)
    requires
        now.day <= i32::MAX - SEARCH_DAYS,
    ensures
        is_next_switch(*cfg, now, *sun, res),
        res matches Some(t) ==> t.at.timestamp > now.timestamp,
{
    let ghost mut seen: Seq<Seq<Transition>> = Seq::empty();
    let mut ahead: u32 = 0;
    while ahead <= SEARCH_DAYS
        invariant
            ahead <= SEARCH_DAYS + 1,
            now.day <= i32::MAX - SEARCH_DAYS,
            seen.len() == ahead,
            forall|k: int|
                0 <= k < seen.len() ==> switches_on(
                    cfg.schedule,
                    now.day + k,
                    sun.sun_on(now.day + k),
                    #[trigger] seen[k],
                ),
            next_from(seen, now.timestamp) is None,
        decreases SEARCH_DAYS + 1 - ahead,
    {
        let day = now.day + ahead as i32;
        let list = transitions_on(cfg, day, sun);
        let found = first_upcoming_transition(&list, now.timestamp);
        proof {
            lemma_next_from_push(seen, list@, now.timestamp);
            seen = seen.push(list@);
        }
        if found.is_some() {
            proof {
                lemma_first_upcoming(list@, now.timestamp);
                assert(next_from(seen, now.timestamp) == found);
            }
            return found;
        }
        ahead = ahead + 1;
    }
    proof {
        assert(next_from(seen, now.timestamp) is None);
    }
    None
}

proof fn lemma_insert_keeps_order(s: Seq<Transition>, t: Transition)
    requires
        is_time_ordered(s),
    ensures
        is_time_ordered(insert_by_time(s, t)),
        insert_by_time(s, t).len() == s.len() + 1,
        forall|i: int|
            0 <= i < insert_by_time(s, t).len() ==> #[trigger] insert_by_time(s, t)[i] == t
                || s.contains(insert_by_time(s, t)[i]),
    decreases s.len(),
{
    if s.len() > 0 && s.last().at.timestamp > t.at.timestamp {
        let r = insert_by_time(s.drop_last(), t);
        lemma_insert_keeps_order(s.drop_last(), t);
        assert forall|i: int| 0 <= i < r.len() implies #[trigger] r[i].at.timestamp
            <= s.last().at.timestamp by {
            if r[i] != t {
                let k = choose|k: int| 0 <= k < s.drop_last().len() && s.drop_last()[k] == r[i];
                assert(s[k] == r[i]);
            }
        }
        assert forall|i: int| 0 <= i < r.len() && #[trigger] r[i] != t implies s.contains(r[i]) by {
            let k = choose|k: int| 0 <= k < s.drop_last().len() && s.drop_last()[k] == r[i];
            assert(s[k] == r[i]);
        }
        assert(s[s.len() - 1] == s.last());
    }
}

/// The switches of a day always come in time order.
pub proof fn law_day_switches_are_time_ordered(
    schedule: Schedule,
    day: int,
    sun: SunTimes,
    resolved: Seq<Option<LocalTime>>,
)
    ensures
        is_time_ordered(day_switches(schedule, day, sun, resolved)),
{
    match schedule {
        Schedule::Fixed { rules } => lemma_sorted_is_ordered(
            rule_switches(rules@, weekday_of_day(day), resolved, rules@.len()),
        ),
        Schedule::Sun { .. } => lemma_sorted_is_ordered(sun_switches(sun)),
    }
}

proof fn lemma_sorted_is_ordered(s: Seq<Transition>)
    ensures
        is_time_ordered(sort_by_time(s)),
    decreases s.len(),
{
    if s.len() > 0 {
        lemma_sorted_is_ordered(s.drop_last());
        lemma_insert_keeps_order(sort_by_time(s.drop_last()), s.last());
    }
}

proof fn lemma_sorted_keeps_members(s: Seq<Transition>)
    ensures
        sort_by_time(s).len() == s.len(),
        forall|i: int| 0 <= i < s.len() ==> s.contains(#[trigger] sort_by_time(s)[i]),
    decreases s.len(),
{
    if s.len() > 0 {
        let sorted = sort_by_time(s.drop_last());
        lemma_sorted_keeps_members(s.drop_last());
        lemma_sorted_is_ordered(s.drop_last());
        lemma_insert_keeps_order(sorted, s.last());
        assert forall|i: int| 0 <= i < s.len() implies s.contains(
            #[trigger] sort_by_time(s)[i],
        ) by {
            let t = sort_by_time(s)[i];
            if t == s.last() {
                assert(s[s.len() - 1] == t);
            } else {
                assert(sorted.contains(t));
                let j = choose|j: int| 0 <= j < sorted.len() && sorted[j] == t;
                assert(s.drop_last().contains(t));
                let k = choose|k: int| 0 <= k < s.drop_last().len() && s.drop_last()[k] == t;
                assert(s[k] == t);
            }
        }
    }
}

proof fn lemma_rule_switch_origin(
    rules: Seq<TimeRule>,
    weekday: Weekday,
    resolved: Seq<Option<LocalTime>>,
    n: nat,
    t: Transition,
)
    requires
        rule_switches(rules, weekday, resolved, n).contains(t),
    ensures
        exists|i: int|
            0 <= i < n && rules[i].days.admits(weekday) && #[trigger] resolved[i] == Some(t.at)
                && t.mode == rules[i].mode,
    decreases n,
{
    let i = n - 1;
    let earlier = rule_switches(rules, weekday, resolved, (n - 1) as nat);
    if rules[i].days.admits(weekday) && resolved[i] is Some && t == (Transition {
        at: resolved[i].unwrap(),
        mode: rules[i].mode,
    }) {
        assert(resolved[i] == Some(t.at));
    } else {
        if rules[i].days.admits(weekday) && resolved[i] is Some {
            let k = choose|k: int|
                0 <= k < rule_switches(rules, weekday, resolved, n).len() && rule_switches(
                    rules,
                    weekday,
                    resolved,
                    n,
                )[k] == t;
            assert(k < earlier.len());
            assert(earlier[k] == t);
        }
        lemma_rule_switch_origin(rules, weekday, resolved, (n - 1) as nat, t);
    }
}

proof fn lemma_insert_keeps_everything(s: Seq<Transition>, t: Transition)
    ensures
        insert_by_time(s, t).contains(t),
        forall|x: Transition| s.contains(x) ==> #[trigger] insert_by_time(s, t).contains(x),
    decreases s.len(),
{
    if s.len() == 0 {
        assert(seq![t][0] == t);
    } else if s.last().at.timestamp <= t.at.timestamp {
        let r = s.push(t);
        assert(r[s.len() as int] == t);
        assert forall|x: Transition| s.contains(x) implies #[trigger] r.contains(x) by {
            let k = choose|k: int| 0 <= k < s.len() && s[k] == x;
            assert(r[k] == x);
        }
    } else {
        let inner = insert_by_time(s.drop_last(), t);
        lemma_insert_keeps_everything(s.drop_last(), t);
        let r = inner.push(s.last());
        let k0 = choose|k: int| 0 <= k < inner.len() && inner[k] == t;
        assert(r[k0] == t);
        assert forall|x: Transition| s.contains(x) implies #[trigger] r.contains(x) by {
            let k = choose|k: int| 0 <= k < s.len() && s[k] == x;
            if k == s.len() - 1 {
                assert(r[inner.len() as int] == x);
            } else {
                assert(s.drop_last()[k] == x);
                assert(inner.contains(x));
                let m = choose|m: int| 0 <= m < inner.len() && inner[m] == x;
                assert(r[m] == x);
            }
        }
    }
}

/// Ordering the switches by time neither drops nor adds any: the ordered
/// list has the same length, holds every switch of the list, and only
/// those.
pub proof fn law_sorting_keeps_every_switch(s: Seq<Transition>)
    ensures
        sort_by_time(s).len() == s.len(),
        forall|i: int| 0 <= i < s.len() ==> #[trigger] sort_by_time(s).contains(s[i]),
        forall|i: int| 0 <= i < s.len() ==> s.contains(#[trigger] sort_by_time(s)[i]),
    decreases s.len(),
{
    lemma_sorted_keeps_members(s);
    if s.len() > 0 {
        law_sorting_keeps_every_switch(s.drop_last());
        let sorted = sort_by_time(s.drop_last());
        lemma_insert_keeps_everything(sorted, s.last());
        assert forall|i: int| 0 <= i < s.len() implies #[trigger] sort_by_time(s).contains(s[i]) by {
            if i < s.len() - 1 {
                assert(s.drop_last()[i] == s[i]);
                assert(sorted.contains(s[i]));
            }
        }
    }
}

proof fn lemma_rule_switches_complete(
    rules: Seq<TimeRule>,
    weekday: Weekday,
    resolved: Seq<Option<LocalTime>>,
    n: nat,
    i: int,
)
    requires
        0 <= i < n,
        rules[i].days.admits(weekday),
        resolved[i] is Some,
    ensures
        rule_switches(rules, weekday, resolved, n).contains(
            Transition { at: resolved[i].unwrap(), mode: rules[i].mode },
        ),
    decreases n,
{
    let t = Transition { at: resolved[i].unwrap(), mode: rules[i].mode };
    let list = rule_switches(rules, weekday, resolved, n);
    if i == n - 1 {
        assert(list[list.len() - 1] == t);
    } else {
        lemma_rule_switches_complete(rules, weekday, resolved, (n - 1) as nat, i);
        let earlier = rule_switches(rules, weekday, resolved, (n - 1) as nat);
        let k = choose|k: int| 0 <= k < earlier.len() && earlier[k] == t;
        assert(list[k] == t);
    }
}

/// No firing rule is lost: every rule whose filter admits the day and whose
/// time resolved to a moment gives a switch at that moment, with its mode.
pub proof fn law_every_firing_rule_gives_a_switch(
    schedule: Schedule,
    day: int,
    sun: SunTimes,
    resolved: Seq<Option<LocalTime>>,
    i: int,
)
    requires
        schedule is Fixed,
        0 <= i < schedule->rules@.len(),
        schedule->rules@[i].days.admits(weekday_of_day(day)),
        resolved[i] is Some,
    ensures
        day_switches(schedule, day, sun, resolved).contains(
            Transition { at: resolved[i].unwrap(), mode: schedule->rules@[i].mode },
        ),
{
    let rules = schedule->rules@;
    let raw = rule_switches(rules, weekday_of_day(day), resolved, rules.len());
    lemma_rule_switches_complete(rules, weekday_of_day(day), resolved, rules.len(), i);
    law_sorting_keeps_every_switch(raw);
    let k = choose|k: int| 0 <= k < raw.len() && raw[k] == (Transition {
        at: resolved[i].unwrap(),
        mode: rules[i].mode,
    });
    assert(sort_by_time(raw).contains(raw[k]));
}

/// Every switch that a fixed schedule gives on a day comes from a rule that
/// fires on that day, and sits on the day at the rule's wall-clock time,
/// with the rule's mode.
pub proof fn law_fixed_switches_sit_at_rule_times(
    schedule: Schedule,
    day: int,
    sun: SunTimes,
    list: Seq<Transition>,
    k: int,
)
    requires
        schedule is Fixed,
        switches_on(schedule, day, sun, list),
        0 <= k < list.len(),
    ensures
        exists|i: int|
            #![trigger schedule->rules@[i]]
            0 <= i < schedule->rules@.len() && fires_on(schedule->rules@[i], day) && list[k].at.day
                == day && list[k].at.clock_minutes() == schedule->rules@[i].minutes && list[k].mode
                == schedule->rules@[i].mode,
{
    let rules = schedule->rules@;
    let (asks, resolved) = choose|asks: Seq<Option<Resolution>>, resolved: Seq<Option<LocalTime>>|
        #![trigger resolution_fits(schedule, day, asks, resolved)]
        resolution_fits(schedule, day, asks, resolved) && list == day_switches(
            schedule,
            day,
            sun,
            resolved,
        );
    let raw = rule_switches(rules, weekday_of_day(day), resolved, rules.len());
    lemma_sorted_keeps_members(raw);
    let t = list[k];
    assert(raw.contains(t));
    lemma_rule_switch_origin(rules, weekday_of_day(day), resolved, rules.len(), t);
    let i = choose|i: int|
        0 <= i < rules.len() && rules[i].days.admits(weekday_of_day(day)) && #[trigger] resolved[i]
            == Some(t.at) && t.mode == rules[i].mode;
    assert(resolved[i] is Some);
    assert(fires_on(rules[i], day));
    assert(schedule->rules@[i] == rules[i]);
}

/// A record that the system changed the theme on its own, within a slot.
#[derive(Debug, Clone, Copy, PartialEq, Eq, Structural)]
pub struct Conflict {
    /// The mode that the schedule asks for.
    pub expected: Mode,
    /// The mode that the theme was changed to.
    pub actual: Mode,
    pub at: LocalTime,
}

/// What the scheduler remembers between ticks.
#[derive(Debug, Clone)]
pub struct RuntimeState {
    /// The time slot that was last asserted.
    pub applied: Option<Transition>,
    /// The configuration revision it was asserted under: a changed
    /// configuration is asserted anew, so that a new wallpaper takes effect.
    pub applied_revision: Option<u64>,
    /// The mode whose wallpaper was already followed, so that the system is
    /// not called again on every tick.
    pub followed_wallpaper: Option<Mode>,
    pub conflict: Option<Conflict>,
    pub last_error: Option<String>,
    /// What the correction of a saved configuration reported.
    pub notice: Option<String>,
    pub paused: bool,
    pub last_tick: Option<LocalTime>,
}

/// The scheduler's shared state.
#[derive(Debug, Clone)]
pub struct Shared {
    pub cfg: Config,
    /// The configuration revision, raised on every save.
    pub revision: u64,
    pub rt: RuntimeState,
}

/// The configuration with the built-in wallpapers that were found filled
/// in: each one found replaces the configured one, the others stay.
pub open spec fn seeded_config(cfg: Config, light: Option<String>, dark: Option<String>) -> Config {
    Config {
        light_wallpaper: if light is Some {
            light
        } else {
            cfg.light_wallpaper
        },
        dark_wallpaper: if dark is Some {
            dark
        } else {
            cfg.dark_wallpaper
        },
        ..cfg
    }
}

/// What a tick does.
#[derive(Debug, Clone, Copy, PartialEq, Eq, Structural)]
pub enum Decision {
    Idle,
    /// A new slot (or a changed configuration): assert theme and wallpaper.
    Apply(Transition),
    /// The theme was changed from outside within the slot: let only the
    /// wallpaper follow, without taking control back.
    FollowWallpaper(Mode),
}

impl RuntimeState {
    /// The state of a scheduler that has done nothing yet.
    pub open spec fn initial() -> RuntimeState {
        RuntimeState {
            applied: None,
            applied_revision: None,
            followed_wallpaper: None,
            conflict: None,
            last_error: None,
            notice: None,
            paused: false,
            last_tick: None,
        }
    }

    /// `slot` was asserted under configuration revision `revision`.
    pub open spec fn asserted(self, slot: Transition, revision: u64) -> bool {
        self.applied == Some(slot) && self.applied_revision == Some(revision)
    }

    /// The state after `target` was asserted under `revision`, with `note`
    /// as what went wrong on the side (or nothing).
    pub open spec fn with_slot_applied(self, target: Transition, revision: u64, note: Option<String>) -> RuntimeState {
        RuntimeState {
            applied: Some(target),
            applied_revision: Some(revision),
            followed_wallpaper: None,
            conflict: None,
            last_error: note,
            ..self
        }
    }

    /// The state after an error.
    pub open spec fn with_error(self, error: String) -> RuntimeState {
        RuntimeState { last_error: Some(error), ..self }
    }

    /// The state after the wallpaper followed a theme set from outside.
    pub open spec fn with_wallpaper_followed(
        self,
        slot: Option<Transition>,
        actual: Mode,
        now: LocalTime,
        failure: Option<String>,
    ) -> RuntimeState {
        RuntimeState {
            followed_wallpaper: Some(actual),
            conflict: Some(
                Conflict {
                    expected: match slot {
                        Some(s) => s.mode,
                        None => actual,
                    },
                    actual,
                    at: now,
                },
            ),
            last_error: if failure is Some {
                failure
            } else {
                self.last_error
            },
            ..self
        }
    }

    /// The state with the record of the last assertion dropped, so that the
    /// next tick asserts again.
    pub open spec fn with_assertion_cleared(self) -> RuntimeState {
        RuntimeState { applied: None, applied_revision: None, followed_wallpaper: None, ..self }
    }

    /// The state after a mode was applied by hand: the result counts as
    /// followed, so that it is not taken for a change from outside.
    pub open spec fn with_manual_apply(self, target: Mode, outcome: Result<Option<String>, String>) -> RuntimeState {
        match outcome {
            Ok(note) => RuntimeState {
                followed_wallpaper: Some(target),
                conflict: None,
                last_error: note,
                ..self
            },
            Err(error) => self.with_error(error),
        }
    }

    /// The state that takes the system as it is: `slot` (if any) counts as
    /// asserted under `revision`, and `theme` as followed.
    pub open spec fn with_current_adopted(self, slot: Option<Transition>, theme: Mode, revision: u64) -> RuntimeState {
        match slot {
            Some(s) => RuntimeState {
                followed_wallpaper: Some(theme),
                applied: Some(s),
                applied_revision: Some(revision),
                ..self
            },
            None => RuntimeState { followed_wallpaper: Some(theme), ..self },
        }
    }

    /// The state after a new configuration was taken on, with `notice`
    /// reporting its corrections.
    pub open spec fn with_new_config(self, notice: Option<String>) -> RuntimeState {
        RuntimeState {
            applied: None,
            applied_revision: None,
            followed_wallpaper: None,
            conflict: None,
            notice,
            ..self
        }
    }
}

impl Default for RuntimeState {
    fn default() -> (res: RuntimeState)
        ensures
            res == RuntimeState::initial(),
    {
        RuntimeState {
            applied: None,
            applied_revision: None,
            followed_wallpaper: None,
            conflict: None,
            last_error: None,
            notice: None,
            paused: false,
            last_tick: None,
        }
    }
}

impl Default for Shared {
    fn default() -> (res: Shared)
        ensures
            res.cfg.is_default(),
            res.revision == 0,
            res.rt == RuntimeState::initial(),
    {
        Shared { cfg: Config::default(), revision: 0, rt: RuntimeState::default() }
    }
}

/// What a tick does, given the remembered state, the current slot, the
/// configuration revision and the theme that the system reports.
pub open spec fn decision(rt: RuntimeState, slot: Option<Transition>, revision: u64, theme: Mode) -> Decision {
    match slot {
        None => Decision::Idle,
        Some(s) => if !rt.asserted(s, revision) {
            Decision::Apply(s)
        } else if theme == s.mode {
            Decision::Idle
        } else if rt.followed_wallpaper == Some(theme) {
            Decision::Idle
        } else {
            Decision::FollowWallpaper(theme)
        },
    }
}

/// What a tick does: nothing without a slot; assert a slot not yet asserted
/// under this revision; within an asserted slot, let the wallpaper follow a
/// theme changed from outside (once), and otherwise do nothing.
pub fn decide(rt: &RuntimeState, slot: Option<Transition>, revision: u64, theme: Mode) -> (res: Decision)
    ensures
        res == decision(*rt, slot, revision, theme),
{
    let slot = match slot {
        Some(s) => s,
        None => {
            return Decision::Idle;
        },
    };
    let same_slot = match rt.applied {
        Some(applied) => applied == slot,
        None => false,
    };
    let same_revision = match rt.applied_revision {
        Some(applied) => applied == revision,
        None => false,
    };
    if !(same_slot && same_revision) {
        return Decision::Apply(slot);
    }
    if theme == slot.mode {
        Decision::Idle
    } else {
        let followed = match rt.followed_wallpaper {
            Some(mode) => mode == theme,
            None => false,
        };
        if followed {
            Decision::Idle
        } else {
            Decision::FollowWallpaper(theme)
        }
    }
}

impl Shared {
    /// Starts a tick at `now`: records the moment and tells whether the
    /// scheduler runs. A disabled or paused scheduler drops the record of
    /// its last assertion, so that it asserts again once it runs again.
    pub fn begin_tick(&mut self, now: LocalTime) -> (active: bool)
        ensures
            active == (old(self).cfg.enabled && !old(self).rt.paused),
            final(self).cfg == old(self).cfg,
            final(self).revision == old(self).revision,
            final(self).rt == if active {
                RuntimeState { last_tick: Some(now), ..old(self).rt }
            } else {
                RuntimeState { last_tick: Some(now), ..old(self).rt }.with_assertion_cleared()
            },
    {
        self.rt.last_tick = Some(now);
        if !self.cfg.enabled || self.rt.paused {
            self.rt.applied = None;
            self.rt.applied_revision = None;
            self.rt.followed_wallpaper = None;
            return false;
        }
        true
    }

    /// What a running tick at `now` does, given the theme that the system
    /// reports; also returns the current slot.
    pub fn decide_tick(&self, now: LocalTime, theme: Mode, sun: &SunWindow) -> (res: (
        Decision,
        Option<Transition>,
    ))
        requires
            now.day >= i32::MIN + SEARCH_DAYS,
        ensures
            is_current_slot(self.cfg, now, *sun, res.1),
            res.0 == decision(self.rt, res.1, self.revision, theme),
    {
        let slot = current_transition(&self.cfg, now, sun);
        (decide(&self.rt, slot, self.revision, theme), slot)
    }

    /// Records the outcome of asserting `target`: on success the slot counts
    /// as asserted under the current revision and `note` (a lock-screen
    /// problem, if any) becomes the last error; on failure the error does.
    pub fn finish_apply(&mut self, target: Transition, outcome: Result<Option<String>, String>)
        ensures
            final(self).cfg == old(self).cfg,
            final(self).revision == old(self).revision,
            final(self).rt == match outcome {
                Ok(note) => old(self).rt.with_slot_applied(target, old(self).revision, note),
                Err(error) => old(self).rt.with_error(error),
            },
    {
        match outcome {
            Ok(note) => {
                self.rt.applied = Some(target);
                self.rt.applied_revision = Some(self.revision);
                self.rt.followed_wallpaper = None;
                self.rt.conflict = None;
                self.rt.last_error = note;
            },
            Err(error) => {
                self.rt.last_error = Some(error);
            },
        }
    }

    /// Records that the wallpaper followed the theme `actual`, set from
    /// outside within `slot`, at `now`; `failure` is the error of setting
    /// the wallpaper, if any.
    pub fn finish_follow(
        &mut self,
        slot: Option<Transition>,
        actual: Mode,
        now: LocalTime,
        failure: Option<String>,
    )
        ensures
            final(self).cfg == old(self).cfg,
            final(self).revision == old(self).revision,
            final(self).rt == old(self).rt.with_wallpaper_followed(slot, actual, now, failure),
    {
        if let Some(error) = failure {
            self.rt.last_error = Some(error);
        }
        self.rt.followed_wallpaper = Some(actual);
        let expected = match slot {
            Some(s) => s.mode,
            None => actual,
        };
        self.rt.conflict = Some(Conflict { expected, actual, at: now });
    }

    /// Takes on a saved configuration: raises the revision and drops the
    /// record of the last assertion, so that the scheduler asserts the new
    /// configuration; the correction notes, joined, become the notice.
    pub fn accept_config(&mut self, cfg: Config, notes: &Vec<String>)
        requires
            old(self).revision < u64::MAX,
        ensures
            final(self).cfg == cfg,
            final(self).revision == old(self).revision + 1,
            final(self).rt == old(self).rt.with_new_config(final(self).rt.notice),
            final(self).rt.notice is None <==> notes@.len() == 0,
            final(self).rt.notice matches Some(n) ==> n@ == joined(texts(notes@), "；"@),
    {
        self.cfg = cfg;
        self.revision = self.revision + 1;
        self.rt.applied = None;
        self.rt.applied_revision = None;
        self.rt.followed_wallpaper = None;
        self.rt.conflict = None;
        self.rt.notice = if notes.len() == 0 {
            None
        } else {
            Some(join(notes, "；"))
        };
    }

    /// Records the outcome of applying `target` by hand, and hands an error
    /// back.
    pub fn record_manual_apply(&mut self, target: Mode, outcome: Result<Option<String>, String>) -> (res: Result<(), String>)
        ensures
            final(self).cfg == old(self).cfg,
            final(self).revision == old(self).revision,
            final(self).rt == old(self).rt.with_manual_apply(target, outcome),
            res is Ok <==> outcome is Ok,
            res matches Err(e) ==> outcome matches Err(f) && e@ == f@,
    {
        match outcome {
            Ok(note) => {
                self.rt.followed_wallpaper = Some(target);
                self.rt.conflict = None;
                self.rt.last_error = note;
                Ok(())
            },
            Err(error) => {
                let copy = error.clone();
                self.rt.last_error = Some(error);
                Err(copy)
            },
        }
    }

    /// Gives the lock screen back: the switch is turned off (under a new
    /// revision, before anything else, so that no later assertion writes the
    /// lock screen again) and the last error is cleared.
    pub fn release_lock_screen(&mut self)
        requires
            old(self).revision < u64::MAX,
        ensures
            final(self).cfg == (Config { lock_screen: false, ..old(self).cfg }),
            final(self).revision == old(self).revision + 1,
            final(self).rt == (RuntimeState { last_error: None, ..old(self).rt }),
    {
        self.cfg.lock_screen = false;
        self.revision = self.revision + 1;
        self.rt.last_error = None;
    }

    /// The configuration that a first run proposes to save: the built-in
    /// wallpapers that were found filled in, everything else as configured.
    /// None when no built-in wallpaper was found. Nothing is changed yet.
    pub fn plan_seed(&self, found: &BuiltinWallpapers) -> (res: Option<Config>)
        ensures
            res is Some <==> (found.light is Some || found.dark is Some),
            res matches Some(c) ==> same_config(c, seeded_config(self.cfg, found.light, found.dark)),
    {
        if found.light.is_none() && found.dark.is_none() {
            return None;
        }
        let mut proposal = self.cfg.copied();
        if let Some(p) = &found.light {
            proposal.light_wallpaper = Some(p.clone());
        }
        if let Some(p) = &found.dark {
            proposal.dark_wallpaper = Some(p.clone());
        }
        Some(proposal)
    }

    /// Takes the proposal of a first run once the attempt to save it is
    /// over: a saved proposal becomes the configuration, under a new
    /// revision; after a failed save nothing changes. Returns whether the
    /// wallpapers were filled in.
    pub fn commit_seed(&mut self, proposal: Config, saved: bool) -> (seeded: bool)
        requires
            saved ==> old(self).revision < u64::MAX,
        ensures
            seeded == saved,
            saved ==> final(self).cfg == proposal && final(self).revision == old(self).revision + 1
                && final(self).rt == old(self).rt,
            !saved ==> *final(self) == *old(self),
    {
        if !saved {
            return false;
        }
        self.cfg = proposal;
        self.revision = self.revision + 1;
        true
    }

    /// Takes the system as it is on a first run: the current slot counts as
    /// asserted and the current theme as followed, so that the first tick
    /// changes nothing on the desktop.
    pub fn adopt_current_state(&mut self, slot: Option<Transition>, theme: Mode)
        ensures
            final(self).cfg == old(self).cfg,
            final(self).revision == old(self).revision,
            final(self).rt == old(self).rt.with_current_adopted(slot, theme, old(self).revision),
    {
        self.rt.followed_wallpaper = Some(theme);
        if let Some(s) = slot {
            self.rt.applied = Some(s);
            self.rt.applied_revision = Some(self.revision);
        }
    }
}

/// Once a slot has been asserted, the next ticks in the same slot and under
/// the same configuration do not assert it again, whatever the theme.
pub proof fn law_slot_is_asserted_once(
    rt: RuntimeState,
    slot: Transition,
    revision: u64,
    note: Option<String>,
    theme: Mode,
)
    ensures
        !(decision(rt.with_slot_applied(slot, revision, note), Some(slot), revision, theme) is Apply),
{
}

/// Within an asserted slot the scheduler never takes control back: it
/// either does nothing or lets the wallpaper follow a theme other than the
/// slot's.
pub proof fn law_no_takeover_within_slot(
    rt: RuntimeState,
    slot: Transition,
    revision: u64,
    theme: Mode,
)
    requires
        rt.asserted(slot, revision),
    ensures
        decision(rt, Some(slot), revision, theme) == Decision::Idle || (decision(
            rt,
            Some(slot),
            revision,
            theme,
        ) == Decision::FollowWallpaper(theme) && theme != slot.mode),
{
}

/// The wallpaper follows a theme set from outside once: afterwards the same
/// theme leaves the scheduler idle.
pub proof fn law_wallpaper_follows_once(
    rt: RuntimeState,
    slot: Transition,
    revision: u64,
    theme: Mode,
    now: LocalTime,
    failure: Option<String>,
)
    requires
        rt.asserted(slot, revision),
    ensures
        decision(
            rt.with_wallpaper_followed(Some(slot), theme, now, failure),
            Some(slot),
            revision,
            theme,
        ) == Decision::Idle,
{
}

/// What a running tick reports back: the theme that the system reports,
/// the moment of the tick, the outcome of asserting the slot (if the tick
/// asserts it) and the failure of letting the wallpaper follow (if the tick
/// does that).
pub type TickReport = (Mode, LocalTime, Result<Option<String>, String>, Option<String>);

/// The remembered state after a running tick in `slot` under `revision`:
/// the tick is recorded (`begin_tick`), then the outcome of what it decided
/// (`finish_apply` or `finish_follow`).
pub open spec fn after_tick(rt: RuntimeState, slot: Transition, revision: u64, tick: TickReport) -> RuntimeState {
    let started = RuntimeState { last_tick: Some(tick.1), ..rt };
    match decision(started, Some(slot), revision, tick.0) {
        Decision::Apply(target) => match tick.2 {
            Ok(note) => started.with_slot_applied(target, revision, note),
            Err(error) => started.with_error(error),
        },
        Decision::FollowWallpaper(actual) => started.with_wallpaper_followed(
            Some(slot),
            actual,
            tick.1,
            tick.3,
        ),
        Decision::Idle => started,
    }
}

/// The decisions of a run of running ticks, all in `slot` under `revision`.
pub open spec fn run_decisions(
    rt: RuntimeState,
    slot: Transition,
    revision: u64,
    ticks: Seq<TickReport>,
) -> Seq<Decision>
    decreases ticks.len(),
{
    if ticks.len() == 0 {
        Seq::empty()
    } else {
        seq![decision(rt, Some(slot), revision, ticks[0].0)] + run_decisions(
            after_tick(rt, slot, revision, ticks[0]),
            slot,
            revision,
            ticks.drop_first(),
        )
    }
}

proof fn lemma_run_after_follow(rt: RuntimeState, slot: Transition, revision: u64, ticks: Seq<TickReport>)
    requires
        rt.asserted(slot, revision),
        rt.followed_wallpaper matches Some(m) && m != slot.mode,
    ensures
        run_decisions(rt, slot, revision, ticks).len() == ticks.len(),
        forall|i: int|
            0 <= i < ticks.len() ==> #[trigger] run_decisions(rt, slot, revision, ticks)[i]
                == Decision::Idle,
    decreases ticks.len(),
{
    if ticks.len() > 0 {
        let next = after_tick(rt, slot, revision, ticks[0]);
        lemma_run_after_follow(next, slot, revision, ticks.drop_first());
        let rest = run_decisions(next, slot, revision, ticks.drop_first());
        assert forall|i: int| 0 <= i < ticks.len() implies #[trigger] run_decisions(
            rt,
            slot,
            revision,
            ticks,
        )[i] == Decision::Idle by {
            if i > 0 {
                assert(run_decisions(rt, slot, revision, ticks)[i] == rest[i - 1]);
            }
        }
    }
}

/// Over a run of ticks in one asserted slot and one revision, the slot is
/// never asserted again, and the wallpaper follows at most once, to a theme
/// that the system reports and that differs from the slot's mode.
pub proof fn law_slot_run_asserts_once_follows_once(
    rt: RuntimeState,
    slot: Transition,
    revision: u64,
    ticks: Seq<TickReport>,
)
    requires
        rt.asserted(slot, revision),
    ensures
        run_decisions(rt, slot, revision, ticks).len() == ticks.len(),
        forall|i: int|
            0 <= i < ticks.len() ==> !(#[trigger] run_decisions(rt, slot, revision, ticks)[i] is Apply),
        forall|i: int|
            0 <= i < ticks.len() && #[trigger] run_decisions(rt, slot, revision, ticks)[i]
                is FollowWallpaper ==> run_decisions(rt, slot, revision, ticks)[i]
                == Decision::FollowWallpaper(ticks[i].0) && ticks[i].0 != slot.mode,
        forall|i: int, j: int|
            0 <= i < j < ticks.len() && #[trigger] run_decisions(rt, slot, revision, ticks)[i]
                is FollowWallpaper ==> !(#[trigger] run_decisions(rt, slot, revision, ticks)[j] is FollowWallpaper),
    decreases ticks.len(),
{
    if ticks.len() > 0 {
        let ds = run_decisions(rt, slot, revision, ticks);
        let next = after_tick(rt, slot, revision, ticks[0]);
        let rest = run_decisions(next, slot, revision, ticks.drop_first());
        assert(next.asserted(slot, revision));
        law_slot_run_asserts_once_follows_once(next, slot, revision, ticks.drop_first());
        assert forall|i: int| 0 < i < ticks.len() implies #[trigger] ds[i] == rest[i - 1]
            && ticks[i] == ticks.drop_first()[i - 1] by {}
        if ds[0] is FollowWallpaper {
            lemma_run_after_follow(next, slot, revision, ticks.drop_first());
        }
    }
}

/// What a tick decides, case by case over the remembered state: with no
/// slot nothing; a slot that is not the one last asserted, or was asserted
/// under another revision, is asserted; within the asserted slot, a theme
/// equal to the slot's mode, or one whose wallpaper already followed, leaves
/// the scheduler idle; any other theme is followed by the wallpaper.
pub proof fn law_tick_decision_cases(rt: RuntimeState, slot: Option<Transition>, revision: u64, theme: Mode)
    ensures
        slot is None ==> decision(rt, slot, revision, theme) == Decision::Idle,
        slot is Some && !(rt.applied == slot && rt.applied_revision == Some(revision)) ==> decision(
            rt,
            slot,
            revision,
            theme,
        ) == Decision::Apply(slot.unwrap()),
        slot is Some && rt.applied == slot && rt.applied_revision == Some(revision) && theme
            == slot.unwrap().mode ==> decision(rt, slot, revision, theme) == Decision::Idle,
        slot is Some && rt.applied == slot && rt.applied_revision == Some(revision)
            && rt.followed_wallpaper == Some(theme) ==> decision(rt, slot, revision, theme)
            == Decision::Idle,
        slot is Some && rt.applied == slot && rt.applied_revision == Some(revision) && theme
            != slot.unwrap().mode && rt.followed_wallpaper != Some(theme) ==> decision(
            rt,
            slot,
            revision,
            theme,
        ) == Decision::FollowWallpaper(theme),
{
}

/// A configuration revision other than the one a slot was asserted under
/// makes the scheduler assert the slot again.
pub proof fn law_new_revision_reasserts(rt: RuntimeState, slot: Transition, revision: u64, theme: Mode)
    requires
        rt.applied_revision != Some(revision),
    ensures
        decision(rt, Some(slot), revision, theme) == Decision::Apply(slot),
{
}

/// A slot other than the one last asserted is asserted: after a sleep, a
/// change of the clock or a new switch time, the first tick puts the mode
/// right.
pub proof fn law_new_slot_is_asserted(rt: RuntimeState, slot: Transition, revision: u64, theme: Mode)
    requires
        rt.applied != Some(slot),
    ensures
        decision(rt, Some(slot), revision, theme) == Decision::Apply(slot),
{
}

/// Without a current slot the scheduler does nothing.
pub proof fn law_no_slot_is_idle(rt: RuntimeState, revision: u64, theme: Mode)
    ensures
        decision(rt, None, revision, theme) == Decision::Idle,
{
}

/// After the scheduler was disabled or paused, its first running tick
/// asserts the current slot again.
pub proof fn law_resumed_scheduler_reasserts(
    rt: RuntimeState,
    now: LocalTime,
    slot: Transition,
    revision: u64,
    theme: Mode,
)
    ensures
        decision(
            RuntimeState { last_tick: Some(now), ..rt }.with_assertion_cleared(),
            Some(slot),
            revision,
            theme,
        ) == Decision::Apply(slot),
{
}

/// A saved configuration is asserted at the next tick.
pub proof fn law_new_config_reasserts(
    rt: RuntimeState,
    notice: Option<String>,
    slot: Transition,
    revision: u64,
    theme: Mode,
)
    ensures
        decision(rt.with_new_config(notice), Some(slot), revision, theme) == Decision::Apply(slot),
{
}

/// A mode applied by hand within an asserted slot is not taken for a change
/// from outside: while the theme stays as applied, the scheduler is idle.
pub proof fn law_manual_apply_is_no_conflict(
    rt: RuntimeState,
    slot: Transition,
    revision: u64,
    target: Mode,
    note: Option<String>,
)
    requires
        rt.asserted(slot, revision),
    ensures
        decision(rt.with_manual_apply(target, Ok(note)), Some(slot), revision, target)
            == Decision::Idle,
{
}

/// A first run that takes the system as it is leaves the first tick idle,
/// as long as the theme stays as it was.
pub proof fn law_adopted_state_is_idle(rt: RuntimeState, slot: Transition, theme: Mode, revision: u64)
    ensures
        decision(rt.with_current_adopted(Some(slot), theme, revision), Some(slot), revision, theme)
            == Decision::Idle,
{
}

/// Applying a mode by hand leaves the schedule in charge: the next switch
/// (a slot other than the asserted one) is asserted as planned.
pub proof fn law_manual_apply_keeps_the_schedule(
    rt: RuntimeState,
    target: Mode,
    outcome: Result<Option<String>, String>,
    slot: Transition,
    revision: u64,
    theme: Mode,
)
    requires
        rt.applied != Some(slot),
    ensures
        decision(rt.with_manual_apply(target, outcome), Some(slot), revision, theme)
            == Decision::Apply(slot),
{
}

/// What applying a mode does about the lock screen.
#[derive(Debug, Clone, PartialEq, Eq)]
pub enum LockStep {
    /// The lock screen is not taken over.
    Skip,
    /// It is, but the mode has no wallpaper.
    MissingWallpaper,
    /// Write this image to the lock screen.
    Write(String),
}

/// The steps of applying a mode: set the theme, then the wallpaper (if the
/// mode has one), then the lock screen as `lock` says.
#[derive(Debug, Clone, PartialEq, Eq)]
pub struct ApplyPlan {
    pub mode: Mode,
    pub wallpaper: Option<String>,
    pub lock: LockStep,
}

/// What applying `mode` under `cfg` does about the lock screen.
pub open spec fn lock_step_for(cfg: Config, mode: Mode) -> LockStep {
    if !cfg.lock_screen {
        LockStep::Skip
    } else {
        match cfg.wallpaper(mode) {
            Some(path) => LockStep::Write(path),
            None => LockStep::MissingWallpaper,
        }
    }
}

/// The steps of applying `mode` under `cfg`.
pub fn plan_apply(cfg: &Config, mode: Mode) -> (res: ApplyPlan)
    ensures
        res.mode == mode,
        res.wallpaper == cfg.wallpaper(mode),
        res.lock == lock_step_for(*cfg, mode),
{
    let wallpaper = match cfg.wallpaper_for(mode) {
        Some(path) => Some(path.clone()),
        None => None,
    };
    let lock = if !cfg.lock_screen {
        LockStep::Skip
    } else {
        match cfg.wallpaper_for(mode) {
            Some(path) => LockStep::Write(path.clone()),
            None => LockStep::MissingWallpaper,
        }
    };
    ApplyPlan { mode, wallpaper, lock }
}

/// Once the lock screen is given back (its switch off), no application of
/// any mode writes it again.
pub proof fn law_released_lock_screen_stays_untouched(cfg: Config, mode: Mode)
    ensures
        lock_step_for(Config { lock_screen: false, ..cfg }, mode) == LockStep::Skip,
{
}

/// Applying a mode puts that mode's own configured wallpaper on the desktop
/// and, when the lock screen is taken over, on the lock screen too: the
/// light wallpaper in light mode, the dark one in dark mode. A lock screen
/// that is not taken over is skipped; one taken over while the mode has no
/// wallpaper is reported as missing it.
pub proof fn law_apply_uses_the_modes_wallpaper(cfg: Config, mode: Mode)
    ensures
        mode == Mode::Light ==> cfg.wallpaper(mode) == cfg.light_wallpaper,
        mode == Mode::Dark ==> cfg.wallpaper(mode) == cfg.dark_wallpaper,
        !cfg.lock_screen ==> lock_step_for(cfg, mode) == LockStep::Skip,
        cfg.lock_screen && mode == Mode::Light && cfg.light_wallpaper is Some ==> lock_step_for(
            cfg,
            mode,
        ) == LockStep::Write(cfg.light_wallpaper.unwrap()),
        cfg.lock_screen && mode == Mode::Dark && cfg.dark_wallpaper is Some ==> lock_step_for(
            cfg,
            mode,
        ) == LockStep::Write(cfg.dark_wallpaper.unwrap()),
        cfg.lock_screen && mode == Mode::Light && cfg.light_wallpaper is None ==> lock_step_for(
            cfg,
            mode,
        ) == LockStep::MissingWallpaper,
        cfg.lock_screen && mode == Mode::Dark && cfg.dark_wallpaper is None ==> lock_step_for(
            cfg,
            mode,
        ) == LockStep::MissingWallpaper,
{
}

/// The note for a lock screen that is taken over while the mode has no
/// wallpaper.
pub fn missing_lock_wallpaper_note() -> (res: String)
    ensures
        res@ == "该模式未配置壁纸，锁屏未更新"@,
{
    String::from_str("该模式未配置壁纸，锁屏未更新")
}

/// The note for the outcome of writing the lock screen: nothing on success;
/// a failure does not fail the whole application of the mode.
pub fn lock_outcome_note(outcome: Result<(), String>) -> (res: Option<String>)
    ensures
        outcome is Ok ==> res is None,
        outcome matches Err(e) ==> res matches Some(n) && n@ == "锁屏壁纸未更新："@ + e@,
{
    match outcome {
        Ok(()) => None,
        Err(error) => {
            let mut note = String::from_str("锁屏壁纸未更新：");
            note.append(error.as_str());
            Some(note)
        },
    }
}

} // verus!
