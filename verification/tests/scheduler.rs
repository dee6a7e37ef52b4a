use chrono::{Datelike, Local, NaiveDate, TimeZone, Timelike};
use duoswitch::clock::{resolve, weekday_of, LocalTime};
use duoswitch::config::{Config, DayFilter, Mode, Schedule, TimeRule, Weekday};
use duoswitch::scheduler::{
    current_transition, day_plan, decide, first_upcoming_transition, latest_due_transition,
    next_transition, transitions_on, Decision, RuntimeState, Shared, SunTimes, SunWindow,
    Transition,
};
use duoswitch::resources::BuiltinWallpapers;

fn day(date: NaiveDate) -> i32 {
    date.num_days_from_ce()
}

fn at(date: NaiveDate, hour: u32, minute: u32) -> LocalTime {
    let naive = date.and_hms_opt(hour, minute, 0).expect("合法时间");
    let moment = match Local.from_local_datetime(&naive) {
        chrono::LocalResult::Single(t) => t,
        chrono::LocalResult::Ambiguous(t, _) => t,
        chrono::LocalResult::None => panic!("本地时间可解析"),
    };
    LocalTime {
        timestamp: moment.timestamp(),
        day: moment.date_naive().num_days_from_ce(),
        hour: moment.hour(),
        minute: moment.minute(),
    }
}

fn fixed_cfg(rules: Vec<TimeRule>) -> Config {
    Config {
        schedule: Schedule::Fixed { rules },
        ..Config::default()
    }
}

fn rule(mode: Mode, hour: u32, minute: u32, days: DayFilter) -> TimeRule {
    TimeRule {
        mode,
        minutes: hour * 60 + minute,
        days,
    }
}

fn no_sun() -> SunWindow {
    SunWindow::empty()
}

#[test]
fn weekday_filter_drops_weekend_transitions() {
    let cfg = fixed_cfg(vec![rule(Mode::Light, 7, 0, DayFilter::Weekdays)]);
    let saturday = NaiveDate::from_ymd_opt(2026, 9, 12).expect("周六");
    let monday = NaiveDate::from_ymd_opt(2026, 9, 14).expect("周一");

    assert!(transitions_on(&cfg, day(saturday), &no_sun()).is_empty(), "周六不应有跳变");
    assert_eq!(transitions_on(&cfg, day(monday), &no_sun()).len(), 1, "周一应有一条");
}

#[test]
fn current_transition_holds_last_mode_across_midnight() {
    // 只有一条 07:00 转亮色的规则：跨过午夜后到次日 07:00 前应仍是亮色
    let cfg = fixed_cfg(vec![rule(Mode::Light, 7, 0, DayFilter::Daily)]);

    let noon = at(NaiveDate::from_ymd_opt(2026, 9, 11).expect("日期"), 12, 0);
    let mid = at(NaiveDate::from_ymd_opt(2026, 9, 12).expect("日期"), 3, 0);

    let a = current_transition(&cfg, noon, &no_sun()).expect("应有生效槽");
    let b = current_transition(&cfg, mid, &no_sun()).expect("应有生效槽(回溯)");

    assert_eq!(a.mode, Mode::Light);
    assert_eq!(b.mode, Mode::Light);
    let b_date = NaiveDate::from_num_days_from_ce_opt(b.at.day).expect("日期");
    assert_eq!(b_date.day(), 11, "应回溯到 9/11 的 07:00");
}

#[test]
fn morning_is_light_and_evening_is_dark() {
    let cfg = Config::default();
    let date = NaiveDate::from_ymd_opt(2026, 9, 11).expect("日期");

    let morning = current_transition(&cfg, at(date, 9, 0), &no_sun()).expect("槽");
    assert_eq!(morning.mode, Mode::Light);
    assert_eq!(morning.at, at(date, 7, 0));

    let evening = current_transition(&cfg, at(date, 21, 0), &no_sun()).expect("槽");
    assert_eq!(evening.mode, Mode::Dark);
    assert_eq!(evening.at, at(date, 19, 0));

    // 边界：正好 19:00 应算入暗色时段
    let boundary = current_transition(&cfg, at(date, 19, 0), &no_sun()).expect("槽");
    assert_eq!(boundary.mode, Mode::Dark);
}

#[test]
fn apply_when_slot_changes_idle_when_consistent() {
    let date = NaiveDate::from_ymd_opt(2026, 9, 11).expect("日期");
    let slot = Transition {
        at: at(date, 7, 0),
        mode: Mode::Light,
    };
    let mut rt = RuntimeState::default();

    // 首次：不管主题是什么都要断言一次
    assert_eq!(
        decide(&rt, Some(slot), 0, Mode::Dark),
        Decision::Apply(slot)
    );

    rt.applied = Some(slot);
    rt.applied_revision = Some(0);

    // 一致 -> 空闲
    assert_eq!(decide(&rt, Some(slot), 0, Mode::Light), Decision::Idle);

    // 外部改成暗色 -> 只跟随壁纸
    assert_eq!(
        decide(&rt, Some(slot), 0, Mode::Dark),
        Decision::FollowWallpaper(Mode::Dark)
    );

    // 已经跟随过 -> 不再重复调用系统 API
    rt.followed_wallpaper = Some(Mode::Dark);
    assert_eq!(decide(&rt, Some(slot), 0, Mode::Dark), Decision::Idle);
}

#[test]
fn config_change_forces_reapply() {
    let date = NaiveDate::from_ymd_opt(2026, 9, 11).expect("日期");
    let slot = Transition {
        at: at(date, 7, 0),
        mode: Mode::Light,
    };
    let mut rt = RuntimeState::default();
    rt.applied = Some(slot);
    rt.applied_revision = Some(3);

    // 配置版本变了（换了壁纸），即使时段槽相同也要重新断言
    assert_eq!(
        decide(&rt, Some(slot), 4, Mode::Light),
        Decision::Apply(slot)
    );
}

#[test]
fn no_transition_yields_idle() {
    let cfg = fixed_cfg(vec![rule(Mode::Light, 7, 0, DayFilter::Weekend)]);
    let monday = NaiveDate::from_ymd_opt(2026, 9, 14).expect("周一");
    let now = at(monday, 12, 0);

    // 工作日没有任何规则，且回溯 8 天内有周末的规则，因此应能取到槽
    let slot = current_transition(&cfg, now, &no_sun());
    assert!(slot.is_some(), "回溯范围内应找到周末的跳变");

    // 完全空规则时才会是 None
    let empty = fixed_cfg(Vec::new());
    assert!(current_transition(&empty, now, &no_sun()).is_none());
    assert_eq!(
        decide(&RuntimeState::default(), None, 0, Mode::Light),
        Decision::Idle
    );
}

#[test]
fn next_transition_walks_into_following_days() {
    let date = NaiveDate::from_ymd_opt(2026, 9, 11).expect("日期");
    let cfg = Config::default();

    // 09:00 时下一个跳变应是当天 19:00 转暗色
    let next = next_transition(&cfg, at(date, 9, 0), &no_sun()).expect("应有下一次跳变");
    assert_eq!(next.mode, Mode::Dark);
    assert_eq!(next.at, at(date, 19, 0));

    // 21:00 时已过当天全部跳变，应跨到次日 07:00
    let tomorrow = next_transition(&cfg, at(date, 21, 0), &no_sun()).expect("应有下一次跳变");
    assert_eq!(tomorrow.mode, Mode::Light);
    let tomorrow_date = NaiveDate::from_num_days_from_ce_opt(tomorrow.at.day).expect("日期");
    assert_eq!(tomorrow_date.day(), 12);
}

#[test]
fn weekday_of_agrees_with_chrono() {
    let mut date = NaiveDate::from_ymd_opt(1960, 1, 1).expect("日期");
    let expected = |d: NaiveDate| match d.weekday() {
        chrono::Weekday::Mon => Weekday::Mon,
        chrono::Weekday::Tue => Weekday::Tue,
        chrono::Weekday::Wed => Weekday::Wed,
        chrono::Weekday::Thu => Weekday::Thu,
        chrono::Weekday::Fri => Weekday::Fri,
        chrono::Weekday::Sat => Weekday::Sat,
        chrono::Weekday::Sun => Weekday::Sun,
    };
    for _ in 0..1000 {
        assert_eq!(weekday_of(day(date)), expected(date));
        date = date.succ_opt().expect("日期");
    }
    let far = NaiveDate::from_ymd_opt(-3000, 2, 28).expect("日期");
    assert_eq!(weekday_of(day(far)), expected(far));
    assert_eq!(weekday_of(1), Weekday::Mon);
    assert_eq!(weekday_of(0), Weekday::Sun);
}

fn moment(timestamp: i64, day: i32) -> LocalTime {
    LocalTime { timestamp, day, hour: 0, minute: 0 }
}

#[test]
fn sun_schedule_gives_rise_then_set() {
    let cfg = Config {
        schedule: Schedule::Sun { latitude: 39_904_200, longitude: 116_407_400 },
        ..Config::default()
    };
    let d = 739_870;
    let window = SunWindow {
        first_day: d,
        days: vec![SunTimes {
            sunrise: Some(moment(1_000, d)),
            sunset: Some(moment(50_000, d)),
            polar: false,
        }],
    };
    let list = transitions_on(&cfg, d, &window);
    assert_eq!(list.len(), 2);
    assert_eq!(list[0].mode, Mode::Light);
    assert_eq!(list[1].mode, Mode::Dark);
    assert!(list[0].at.timestamp < list[1].at.timestamp);

    // a day outside the window, or a polar day, has no switch
    assert!(transitions_on(&cfg, d + 1, &window).is_empty());
    let polar = SunWindow {
        first_day: d,
        days: vec![SunTimes { sunrise: None, sunset: None, polar: true }],
    };
    assert!(transitions_on(&cfg, d, &polar).is_empty());
}

#[test]
fn sun_schedule_orders_a_sunset_before_sunrise() {
    let d = 739_870;
    let schedule = Schedule::Sun { latitude: 0, longitude: 0 };
    let sun = SunTimes { sunrise: Some(moment(90_000, d)), sunset: Some(moment(10_000, d)), polar: false };
    let list = day_plan(&schedule, d, sun, &Vec::new());
    assert_eq!(list.len(), 2);
    assert_eq!(list[0], Transition { at: moment(10_000, d), mode: Mode::Dark });
    assert_eq!(list[1], Transition { at: moment(90_000, d), mode: Mode::Light });
}

#[test]
fn day_plan_filters_sorts_and_keeps_ties_in_rule_order() {
    // 2026-09-12 is a Saturday
    let d = day(NaiveDate::from_ymd_opt(2026, 9, 12).expect("日期"));
    let schedule = Schedule::Fixed {
        rules: vec![
            rule(Mode::Dark, 20, 0, DayFilter::Daily),
            rule(Mode::Light, 8, 0, DayFilter::Weekdays),
            rule(Mode::Light, 6, 0, DayFilter::Weekend),
            rule(Mode::Dark, 6, 0, DayFilter::Daily),
            rule(Mode::Light, 9, 0, DayFilter::Daily),
        ],
    };
    let resolved = vec![
        Some(moment(300, d)),
        Some(moment(50, d)),
        Some(moment(100, d)),
        Some(moment(100, d)),
        None,
    ];
    let list = day_plan(&schedule, d, SunTimes { sunrise: None, sunset: None, polar: false }, &resolved);
    assert_eq!(
        list,
        vec![
            Transition { at: moment(100, d), mode: Mode::Light },
            Transition { at: moment(100, d), mode: Mode::Dark },
            Transition { at: moment(300, d), mode: Mode::Dark },
        ]
    );
}

#[test]
fn out_of_day_rules_give_no_switch() {
    let date = NaiveDate::from_ymd_opt(2026, 9, 11).expect("日期");
    let cfg = fixed_cfg(vec![TimeRule { mode: Mode::Dark, minutes: 1440, days: DayFilter::Daily }]);
    assert!(transitions_on(&cfg, day(date), &no_sun()).is_empty());
    let cfg = fixed_cfg(vec![rule(Mode::Dark, 23, 59, DayFilter::Daily)]);
    assert_eq!(transitions_on(&cfg, day(date), &no_sun())[0].at, at(date, 23, 59));
}

#[test]
fn latest_due_and_first_upcoming_pick_by_position() {
    let list = vec![
        Transition { at: moment(10, 1), mode: Mode::Light },
        Transition { at: moment(20, 1), mode: Mode::Dark },
        Transition { at: moment(30, 1), mode: Mode::Light },
    ];
    assert_eq!(latest_due_transition(&list, 25), Some(list[1]));
    assert_eq!(latest_due_transition(&list, 20), Some(list[1]));
    assert_eq!(latest_due_transition(&list, 9), None);
    assert_eq!(first_upcoming_transition(&list, 20), Some(list[2]));
    assert_eq!(first_upcoming_transition(&list, 9), Some(list[0]));
    assert_eq!(first_upcoming_transition(&list, 30), None);
}

#[test]
fn search_stops_after_eight_days() {
    // a rule that only fires at the weekend: from a Friday the search goes back
    // to last Sunday and ahead to the coming Saturday; an empty schedule finds
    // nothing in the whole window
    let friday = NaiveDate::from_ymd_opt(2026, 9, 18).expect("日期");
    let cfg = fixed_cfg(vec![rule(Mode::Dark, 7, 0, DayFilter::Weekend)]);
    let found = current_transition(&cfg, at(friday, 12, 0), &no_sun()).expect("槽");
    let found_date = NaiveDate::from_num_days_from_ce_opt(found.at.day).expect("日期");
    assert_eq!(found_date.day(), 13);
    let next = next_transition(&cfg, at(friday, 12, 0), &no_sun()).expect("槽");
    let next_date = NaiveDate::from_num_days_from_ce_opt(next.at.day).expect("日期");
    assert_eq!(next_date.day(), 19);
    assert!(next_transition(&fixed_cfg(Vec::new()), at(friday, 12, 0), &no_sun()).is_none());
}

#[test]
fn a_tick_applies_once_then_follows_the_wallpaper_once() {
    let date = NaiveDate::from_ymd_opt(2026, 9, 11).expect("日期");
    let now = at(date, 9, 0);
    let mut shared = Shared::default();
    shared.revision = 1;

    assert!(shared.begin_tick(now));
    assert_eq!(shared.rt.last_tick, Some(now));
    let (decision, slot) = shared.decide_tick(now, Mode::Dark, &no_sun());
    let target = slot.expect("槽");
    assert_eq!(target.mode, Mode::Light);
    assert_eq!(decision, Decision::Apply(target));
    shared.finish_apply(target, Ok(Some("锁屏壁纸未更新：x".to_string())));
    assert_eq!(shared.rt.applied, Some(target));
    assert_eq!(shared.rt.applied_revision, Some(1));
    assert_eq!(shared.rt.last_error.as_deref(), Some("锁屏壁纸未更新：x"));

    // the system switched to dark on its own: only the wallpaper follows
    let (decision, slot) = shared.decide_tick(now, Mode::Dark, &no_sun());
    assert_eq!(decision, Decision::FollowWallpaper(Mode::Dark));
    shared.finish_follow(slot, Mode::Dark, now, None);
    let conflict = shared.rt.conflict.expect("冲突");
    assert_eq!(conflict.expected, Mode::Light);
    assert_eq!(conflict.actual, Mode::Dark);
    assert_eq!(conflict.at, now);
    let (decision, _) = shared.decide_tick(now, Mode::Dark, &no_sun());
    assert_eq!(decision, Decision::Idle);

    // a failed assertion keeps the slot unasserted
    let mut other = Shared::default();
    other.finish_apply(target, Err("boom".to_string()));
    assert_eq!(other.rt.applied, None);
    assert_eq!(other.rt.last_error.as_deref(), Some("boom"));
}

#[test]
fn pausing_resets_and_resuming_reasserts() {
    let date = NaiveDate::from_ymd_opt(2026, 9, 11).expect("日期");
    let now = at(date, 9, 0);
    let mut shared = Shared::default();
    let slot = current_transition(&shared.cfg, now, &no_sun());
    shared.finish_apply(slot.expect("槽"), Ok(None));
    shared.rt.paused = true;
    assert!(!shared.begin_tick(now));
    assert_eq!(shared.rt.applied, None);
    assert_eq!(shared.rt.applied_revision, None);
    shared.rt.paused = false;
    assert!(shared.begin_tick(now));
    let (decision, _) = shared.decide_tick(now, Mode::Light, &no_sun());
    assert!(matches!(decision, Decision::Apply(_)));

    shared.cfg.enabled = false;
    assert!(!shared.begin_tick(now));
}

#[test]
fn saving_a_config_forces_reassertion_and_reports_notes() {
    let date = NaiveDate::from_ymd_opt(2026, 9, 11).expect("日期");
    let now = at(date, 9, 0);
    let mut shared = Shared::default();
    let slot = current_transition(&shared.cfg, now, &no_sun()).expect("槽");
    shared.finish_apply(slot, Ok(None));
    let notes = vec!["a".to_string(), "b".to_string()];
    shared.accept_config(Config::default(), &notes);
    assert_eq!(shared.revision, 1);
    assert_eq!(shared.rt.notice.as_deref(), Some("a；b"));
    assert_eq!(decide(&shared.rt, Some(slot), shared.revision, Mode::Light), Decision::Apply(slot));
    shared.accept_config(Config::default(), &Vec::new());
    assert_eq!(shared.rt.notice, None);
    assert_eq!(shared.revision, 2);
}

#[test]
fn manual_apply_counts_as_followed() {
    let date = NaiveDate::from_ymd_opt(2026, 9, 11).expect("日期");
    let now = at(date, 9, 0);
    let mut shared = Shared::default();
    let slot = current_transition(&shared.cfg, now, &no_sun()).expect("槽");
    shared.finish_apply(slot, Ok(None));
    assert_eq!(shared.record_manual_apply(Mode::Dark, Ok(None)), Ok(()));
    assert_eq!(shared.rt.followed_wallpaper, Some(Mode::Dark));
    assert_eq!(decide(&shared.rt, Some(slot), shared.revision, Mode::Dark), Decision::Idle);
    assert_eq!(
        shared.record_manual_apply(Mode::Light, Err("失败".to_string())),
        Err("失败".to_string())
    );
    assert_eq!(shared.rt.last_error.as_deref(), Some("失败"));
}

#[test]
fn first_run_seeding_and_adoption() {
    let mut shared = Shared::default();
    let nothing = BuiltinWallpapers { light: None, dark: None };
    assert_eq!(shared.plan_seed(&nothing), None);
    let found = BuiltinWallpapers { light: Some("l.png".to_string()), dark: None };
    let proposal = shared.plan_seed(&found).expect("有内置壁纸");
    assert_eq!(proposal.light_wallpaper.as_deref(), Some("l.png"));
    assert_eq!(proposal.dark_wallpaper, None);
    assert_eq!(proposal.schedule, Config::default().schedule);
    assert_eq!(shared.revision, 0);
    assert_eq!(shared.cfg.light_wallpaper, None);

    // a failed save leaves everything as it was
    assert!(!shared.commit_seed(proposal.clone(), false));
    assert_eq!(shared.revision, 0);
    assert_eq!(shared.cfg.light_wallpaper, None);

    assert!(shared.commit_seed(proposal, true));
    assert_eq!(shared.revision, 1);
    assert_eq!(shared.cfg.light_wallpaper.as_deref(), Some("l.png"));
    assert_eq!(shared.cfg.dark_wallpaper, None);

    let date = NaiveDate::from_ymd_opt(2026, 9, 11).expect("日期");
    let now = at(date, 21, 0);
    let slot = current_transition(&shared.cfg, now, &no_sun());
    shared.adopt_current_state(slot, Mode::Light);
    assert!(shared.begin_tick(now));
    let (decision, _) = shared.decide_tick(now, Mode::Light, &no_sun());
    assert_eq!(decision, Decision::Idle);

    shared.release_lock_screen();
    assert!(!shared.cfg.lock_screen);
    assert_eq!(shared.revision, 2);
}

#[test]
fn day_filters_split_the_week() {
    let days = [
        Weekday::Mon,
        Weekday::Tue,
        Weekday::Wed,
        Weekday::Thu,
        Weekday::Fri,
        Weekday::Sat,
        Weekday::Sun,
    ];
    for (i, d) in days.iter().enumerate() {
        assert!(DayFilter::Daily.matches(*d));
        assert_ne!(DayFilter::Weekdays.matches(*d), DayFilter::Weekend.matches(*d));
        assert_eq!(DayFilter::Weekend.matches(*d), i >= 5);
        // seven days later is the same day of the week
        assert_eq!(weekday_of(739_870 + i as i32), weekday_of(739_877 + i as i32));
    }
}

#[test]
fn current_switch_lies_before_the_next() {
    let date = NaiveDate::from_ymd_opt(2026, 9, 11).expect("日期");
    let cfg = Config::default();
    for hour in 0..24 {
        let now = at(date, hour, 30);
        let current = current_transition(&cfg, now, &no_sun()).expect("槽");
        let next = next_transition(&cfg, now, &no_sun()).expect("下一次");
        assert!(current.at.timestamp <= now.timestamp);
        assert!(now.timestamp < next.at.timestamp);
        assert_ne!(current.mode, next.mode);
    }
}

#[test]
fn a_new_slot_is_asserted_even_after_a_manual_apply() {
    let date = NaiveDate::from_ymd_opt(2026, 9, 11).expect("日期");
    let morning = Transition { at: at(date, 7, 0), mode: Mode::Light };
    let evening = Transition { at: at(date, 19, 0), mode: Mode::Dark };
    let mut shared = Shared::default();
    shared.finish_apply(morning, Ok(None));
    let _ = shared.record_manual_apply(Mode::Dark, Ok(None));
    assert_eq!(decide(&shared.rt, Some(morning), 0, Mode::Dark), Decision::Idle);
    assert_eq!(decide(&shared.rt, Some(evening), 0, Mode::Dark), Decision::Apply(evening));
    assert_eq!(decide(&shared.rt, Some(evening), 0, Mode::Light), Decision::Apply(evening));
}

#[test]
fn fixed_rules_resolve_at_their_wall_clock_time() {
    let date = NaiveDate::from_ymd_opt(2026, 3, 4).expect("日期");
    let cfg = Config {
        schedule: Schedule::Fixed {
            rules: vec![
                TimeRule { mode: Mode::Dark, minutes: 1305, days: DayFilter::Daily },
                TimeRule { mode: Mode::Light, minutes: 390, days: DayFilter::Weekdays },
                TimeRule { mode: Mode::Dark, minutes: 600, days: DayFilter::Weekend },
            ],
        },
        ..Config::default()
    };
    let list = transitions_on(&cfg, day(date), &SunWindow::empty());
    assert_eq!(list.len(), 2);
    assert_eq!((list[0].at.hour, list[0].at.minute, list[0].mode), (6, 30, Mode::Light));
    assert_eq!((list[1].at.hour, list[1].at.minute, list[1].mode), (21, 45, Mode::Dark));
    assert_eq!(list[0].at, at(date, 6, 30));
    assert_eq!(list[1].at, at(date, 21, 45));
    assert!(list.iter().all(|t| t.at.day == day(date)));
}

#[test]
fn resolution_keeps_the_request() {
    let date = NaiveDate::from_ymd_opt(2026, 7, 1).expect("日期");
    let answer = resolve(day(date), 13, 5);
    let moment = answer.moment().expect("正午后的时间存在");
    assert_eq!((moment.day, moment.hour, moment.minute), (day(date), 13, 5));
    assert_eq!(moment, at(date, 13, 5));
}

#[test]
fn a_slot_run_is_asserted_once_and_followed_once() {
    let date = NaiveDate::from_ymd_opt(2026, 9, 9).expect("日期");
    let mut shared = Shared::default();
    // 10:00 lies in the 07:00 light slot of the default schedule
    let themes = [Mode::Dark, Mode::Light, Mode::Light, Mode::Light];
    let mut applies = 0;
    let mut follows = 0;
    for (k, theme) in themes.iter().enumerate() {
        let now = at(date, 10, k as u32);
        assert!(shared.begin_tick(now));
        let (decision, slot) = shared.decide_tick(now, *theme, &SunWindow::empty());
        match decision {
            Decision::Apply(target) => {
                applies += 1;
                shared.finish_apply(target, Ok(None));
            }
            Decision::FollowWallpaper(actual) => {
                follows += 1;
                shared.finish_follow(slot, actual, now, None);
            }
            Decision::Idle => {}
        }
    }
    assert_eq!(applies, 1);
    assert_eq!(follows, 0);

    let mut applies = 0;
    let mut follows = 0;
    for (k, theme) in [Mode::Dark, Mode::Light, Mode::Dark, Mode::Dark].iter().enumerate() {
        let now = at(date, 11, k as u32);
        assert!(shared.begin_tick(now));
        let (decision, slot) = shared.decide_tick(now, *theme, &SunWindow::empty());
        match decision {
            Decision::Apply(target) => {
                applies += 1;
                shared.finish_apply(target, Ok(None));
            }
            Decision::FollowWallpaper(actual) => {
                follows += 1;
                assert_eq!(actual, Mode::Dark);
                shared.finish_follow(slot, actual, now, None);
            }
            Decision::Idle => {}
        }
    }
    assert_eq!(applies, 0);
    assert_eq!(follows, 1);
    let conflict = shared.rt.conflict.expect("记录冲突");
    assert_eq!((conflict.expected, conflict.actual), (Mode::Light, Mode::Dark));
}
