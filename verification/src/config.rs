//! The configuration model: colour modes, day filters, fixed time rules,
//! the sun-following schedule, and the correction of out-of-range input.
//!
//! Geographic coordinates are held as integers in millionths of a degree.
//! Wallpaper paths are held as text.

use vstd::prelude::*;

use crate::files::{check_file, join_path, joins, FileCheck};
use crate::text::{ascii_lowercase, decimal, decimal_string, lowercase_equals, texts};

verus! {

/// Name of the directory (below the per-user configuration root) that holds
/// the configuration file.
pub const APP_DIR: &'static str = "com.FinnXiong.duoswitch";

/// Name of the configuration file inside the configuration directory.
pub const FILE_NAME: &'static str = "config.json";

/// Last minute of a day (23:59), counted from midnight.
pub const LAST_MINUTE: u32 = 1439;

/// Latitude that replaces an out-of-range one (39.9042°, in millionths).
pub const DEFAULT_LATITUDE: i64 = 39_904_200;

/// Longitude that replaces an out-of-range one (116.4074°, in millionths).
pub const DEFAULT_LONGITUDE: i64 = 116_407_400;

/// Largest latitude magnitude (90°, in millionths).
pub const LATITUDE_LIMIT: i64 = 90_000_000;

/// Largest longitude magnitude (180°, in millionths).
pub const LONGITUDE_LIMIT: i64 = 180_000_000;

/// A colour mode of the system theme.
#[derive(Debug, Clone, Copy, PartialEq, Eq, Hash, Structural)]
pub enum Mode {
    Light,
    Dark,
}

impl Mode {
    /// The lower-case name of the mode.
    pub open spec fn name(self) -> Seq<char> {
        match self {
            Mode::Light => "light"@,
            Mode::Dark => "dark"@,
        }
    }

    /// The mode that a text names, ignoring ASCII case.
    pub open spec fn named(text: Seq<char>) -> Option<Mode> {
        if ascii_lowercase(text) == "light"@ {
            Some(Mode::Light)
        } else if ascii_lowercase(text) == "dark"@ {
            Some(Mode::Dark)
        } else {
            None
        }
    }

    /// The lower-case name of the mode: `"light"` or `"dark"`.
    pub fn as_str(self) -> (res: &'static str)
        ensures
            res@ == self.name(),
    {
        match self {
            Mode::Light => "light",
            Mode::Dark => "dark",
        }
    }

    /// Reads a mode from its name, ignoring ASCII case.
    pub fn parse(text: &str) -> (res: Option<Mode>)
        ensures
            res == Mode::named(text@),
    {
        if lowercase_equals(text, "light") {
            Some(Mode::Light)
        } else if lowercase_equals(text, "dark") {
            Some(Mode::Dark)
        } else {
            None
        }
    }
}

/// A day of the week.
#[derive(Debug, Clone, Copy, PartialEq, Eq, Structural)]
pub enum Weekday {
    Mon,
    Tue,
    Wed,
    Thu,
    Fri,
    Sat,
    Sun,
}

/// Which days a fixed time rule fires on.
#[derive(Debug, Clone, Copy, PartialEq, Eq, Structural)]
pub enum DayFilter {
    Daily,
    Weekdays,
    Weekend,
}

impl DayFilter {
    /// Whether the filter lets `weekday` through.
    pub open spec fn admits(self, weekday: Weekday) -> bool {
        match self {
            DayFilter::Daily => true,
            DayFilter::Weekdays => !(weekday is Sat || weekday is Sun),
            DayFilter::Weekend => weekday is Sat || weekday is Sun,
        }
    }

    /// Whether the filter lets `weekday` through.
    pub fn matches(self, weekday: Weekday) -> (res: bool)
        ensures
            res == self.admits(weekday),
    {
        match self {
            DayFilter::Daily => true,
            DayFilter::Weekdays => match weekday {
                Weekday::Sat | Weekday::Sun => false,
                _ => true,
            },
            DayFilter::Weekend => match weekday {
                Weekday::Sat | Weekday::Sun => true,
                _ => false,
            },
        }
    }
}

/// A fixed switch: at `minutes` after local midnight, on the days that
/// `days` admits, the system goes to `mode`.
#[derive(Debug, Clone, Copy, PartialEq, Eq, Structural)]
pub struct TimeRule {
    pub mode: Mode,
    pub minutes: u32,
    pub days: DayFilter,
}

/// When the switches happen.
#[derive(Debug, Clone, PartialEq)]
pub enum Schedule {
    /// At fixed times of day.
    Fixed { rules: Vec<TimeRule> },
    /// At sunrise (to light) and sunset (to dark) at a place given in
    /// millionths of a degree (east and north positive).
    Sun { latitude: i64, longitude: i64 },
}

/// The whole configuration.
#[derive(Debug, Clone, PartialEq)]
pub struct Config {
    /// Master switch of the scheduler.
    pub enabled: bool,
    /// Wallpaper used in light mode (absolute path).
    pub light_wallpaper: Option<String>,
    /// Wallpaper used in dark mode (absolute path).
    pub dark_wallpaper: Option<String>,
    pub schedule: Schedule,
    /// Whether the lock screen image follows the mode too.
    pub lock_screen: bool,
}

/// The rules of the default schedule: light at 07:00, dark at 19:00, daily.
pub open spec fn default_rules() -> Seq<TimeRule> {
    seq![
        TimeRule { mode: Mode::Light, minutes: 420, days: DayFilter::Daily },
        TimeRule { mode: Mode::Dark, minutes: 1140, days: DayFilter::Daily },
    ]
}

impl Config {
    /// The default configuration: enabled, no wallpapers, the default
    /// fixed rules, lock screen untouched.
    pub open spec fn is_default(self) -> bool {
        &&& self.enabled
        &&& self.light_wallpaper is None
        &&& self.dark_wallpaper is None
        &&& self.schedule matches Schedule::Fixed { rules } && rules@ == default_rules()
        &&& !self.lock_screen
    }

    /// The wallpaper configured for `mode`.
    pub open spec fn wallpaper(self, mode: Mode) -> Option<String> {
        match mode {
            Mode::Light => self.light_wallpaper,
            Mode::Dark => self.dark_wallpaper,
        }
    }

    /// The wallpaper configured for `mode`.
    pub fn wallpaper_for(&self, mode: Mode) -> (res: Option<&String>)
        ensures
            res is Some <==> self.wallpaper(mode) is Some,
            res is Some ==> *res.unwrap() == self.wallpaper(mode).unwrap(),
    {
        match mode {
            Mode::Light => match &self.light_wallpaper {
                Some(p) => Some(p),
                None => None,
            },
            Mode::Dark => match &self.dark_wallpaper {
                Some(p) => Some(p),
                None => None,
            },
        }
    }
}

impl Default for Config {
    fn default() -> (res: Config)
        ensures
            res.is_default(),
    {
        let mut rules: Vec<TimeRule> = Vec::new();
        rules.push(TimeRule { mode: Mode::Light, minutes: 7 * 60, days: DayFilter::Daily });
        rules.push(TimeRule { mode: Mode::Dark, minutes: 19 * 60, days: DayFilter::Daily });
        assert(rules@ =~= default_rules());
        Config {
            enabled: true,
            light_wallpaper: None,
            dark_wallpaper: None,
            schedule: Schedule::Fixed { rules },
            lock_screen: false,
        }
    }
}

/// A time of day pulled into the day: at most 23:59.
pub open spec fn clamp_minutes(minutes: u32) -> u32 {
    if minutes > LAST_MINUTE {
        LAST_MINUTE
    } else {
        minutes
    }
}

/// The rule with its time pulled into the day.
pub open spec fn clamp_rule(rule: TimeRule) -> TimeRule {
    TimeRule { minutes: clamp_minutes(rule.minutes), ..rule }
}

/// The note that reports a time pulled back to 23:59.
pub open spec fn clamp_note(minutes: u32) -> Seq<char> {
    "时间点 "@ + decimal(minutes as nat) + " 超出范围，已收敛到 23:59"@
}

/// The notes for the rules whose times were out of the day, in order.
pub open spec fn clamp_notes(rules: Seq<TimeRule>) -> Seq<Seq<char>>
    decreases rules.len(),
{
    if rules.len() == 0 {
        Seq::empty()
    } else {
        let earlier = clamp_notes(rules.drop_last());
        if rules.last().minutes > LAST_MINUTE {
            earlier.push(clamp_note(rules.last().minutes))
        } else {
            earlier
        }
    }
}

/// The note that reports a reset latitude.
pub open spec fn latitude_note() -> Seq<char> {
    "纬度超出 -90~90，已重置为 39.9042"@
}

/// The note that reports a reset longitude.
pub open spec fn longitude_note() -> Seq<char> {
    "经度超出 -180~180，已重置为 116.4074"@
}

/// Whether a latitude (millionths of a degree) lies in -90°..=90°.
pub open spec fn latitude_ok(latitude: i64) -> bool {
    -LATITUDE_LIMIT <= latitude <= LATITUDE_LIMIT
}

/// Whether a longitude (millionths of a degree) lies in -180°..=180°.
pub open spec fn longitude_ok(longitude: i64) -> bool {
    -LONGITUDE_LIMIT <= longitude <= LONGITUDE_LIMIT
}

/// How a schedule comes out of the correction.
pub open spec fn schedule_corrected(before: Schedule, after: Schedule) -> bool {
    match before {
        Schedule::Fixed { rules } => after matches Schedule::Fixed { rules: fixed }
            && fixed@ == rules@.map_values(|r: TimeRule| clamp_rule(r)),
        Schedule::Sun { latitude, longitude } => after == Schedule::Sun {
            latitude: if latitude_ok(latitude) {
                latitude
            } else {
                DEFAULT_LATITUDE
            },
            longitude: if longitude_ok(longitude) {
                longitude
            } else {
                DEFAULT_LONGITUDE
            },
        },
    }
}

/// The notes that the correction of a schedule reports, in order.
pub open spec fn schedule_notes(before: Schedule) -> Seq<Seq<char>> {
    match before {
        Schedule::Fixed { rules } => clamp_notes(rules@),
        Schedule::Sun { latitude, longitude } => (if latitude_ok(latitude) {
            Seq::empty()
        } else {
            seq![latitude_note()]
        }) + (if longitude_ok(longitude) {
            Seq::empty()
        } else {
            seq![longitude_note()]
        }),
    }
}

/// A wallpaper after the check: dropped when its file is missing.
pub open spec fn wallpaper_kept(path: Option<String>, exists: bool) -> Option<String> {
    if path is Some && !exists {
        None
    } else {
        path
    }
}

/// The note that reports a dropped wallpaper.
pub open spec fn wallpaper_note(label: Seq<char>, path: Option<String>, exists: bool) -> Seq<
    Seq<char>,
> {
    if path is Some && !exists {
        seq![label + "壁纸文件不存在，已清除："@ + path.unwrap()@]
    } else {
        Seq::empty()
    }
}

/// `check` is the check of the configured wallpaper `path`: present exactly
/// when a wallpaper is configured, and made on its path.
pub open spec fn checks_wallpaper(path: Option<String>, check: Option<FileCheck>) -> bool {
    match (path, check) {
        (Some(p), Some(c)) => c.checked() == p@,
        (None, None) => true,
        _ => false,
    }
}

/// What a wallpaper check answered; a wallpaper that is not configured
/// counts as present.
pub open spec fn file_found(check: Option<FileCheck>) -> bool {
    match check {
        Some(c) => c.found(),
        None => true,
    }
}

impl Config {
    /// Every value lies in its range: times within the day, coordinates on
    /// the globe.
    pub open spec fn is_sane(self) -> bool {
        match self.schedule {
            Schedule::Fixed { rules } => forall|i: int|
                0 <= i < rules@.len() ==> #[trigger] rules@[i].minutes <= LAST_MINUTE,
            Schedule::Sun { latitude, longitude } => latitude_ok(latitude) && longitude_ok(
                longitude,
            ),
        }
    }

    /// `after` and `notes` are what the correction makes of `self`, given
    /// whether the light and the dark wallpaper files exist.
    pub open spec fn corrected(
        self,
        after: Config,
        notes: Seq<Seq<char>>,
        light_exists: bool,
        dark_exists: bool,
    ) -> bool {
        &&& after.enabled == self.enabled
        &&& after.lock_screen == self.lock_screen
        &&& schedule_corrected(self.schedule, after.schedule)
        &&& after.light_wallpaper == wallpaper_kept(self.light_wallpaper, light_exists)
        &&& after.dark_wallpaper == wallpaper_kept(self.dark_wallpaper, dark_exists)
        &&& notes == schedule_notes(self.schedule) + wallpaper_note(
            "亮色"@,
            self.light_wallpaper,
            light_exists,
        ) + wallpaper_note("暗色"@, self.dark_wallpaper, dark_exists)
    }

    /// Corrects out-of-range input and drops wallpapers whose file is
    /// missing; returns a note for each correction, for display. Each
    /// configured wallpaper is checked on the file system.
    pub fn sanitize(&mut self) -> (notes: Vec<String>)
        ensures
            exists|light: Option<FileCheck>, dark: Option<FileCheck>|
                {
                    &&& checks_wallpaper(old(self).light_wallpaper, light)
                    &&& checks_wallpaper(old(self).dark_wallpaper, dark)
                    &&& old(self).corrected(
                        *final(self),
                        texts(notes@),
                        file_found(light),
                        file_found(dark),
                    )
                },
            final(self).is_sane(),
    {
        let light = match &self.light_wallpaper {
            Some(path) => Some(check_file(path.as_str())),
            None => None,
        };
        let dark = match &self.dark_wallpaper {
            Some(path) => Some(check_file(path.as_str())),
            None => None,
        };
        self.sanitize_with(&light, &dark)
    }

    /// The correction of `sanitize`, with the checks of the wallpaper files
    /// given: `light` and `dark` are the checks of the configured light and
    /// dark wallpapers (none where no wallpaper is configured).
    pub fn sanitize_with(&mut self, light: &Option<FileCheck>, dark: &Option<FileCheck>) -> (notes: Vec<String>)
        requires
            checks_wallpaper(old(self).light_wallpaper, *light),
            checks_wallpaper(old(self).dark_wallpaper, *dark),
        ensures
            old(self).corrected(*final(self), texts(notes@), file_found(*light), file_found(*dark)),
            final(self).is_sane(),
    {
        let light_exists = match light {
            Some(check) => check.file_exists(),
            None => true,
        };
        let dark_exists = match dark {
            Some(check) => check.file_exists(),
            None => true,
        };
        let mut notes: Vec<String> = Vec::new();
        let schedule = correct_schedule(&self.schedule, &mut notes);
        self.schedule = schedule;
        let ghost after_schedule = texts(notes@);
        if !light_exists {
            if let Some(path) = &self.light_wallpaper {
                notes.push(missing_wallpaper_note("亮色", path));
            }
            self.light_wallpaper = None;
        }
        let ghost after_light = texts(notes@);
        if !dark_exists {
            if let Some(path) = &self.dark_wallpaper {
                notes.push(missing_wallpaper_note("暗色", path));
            }
            self.dark_wallpaper = None;
        }
        proof {
            assert(after_light =~= after_schedule + wallpaper_note(
                "亮色"@,
                old(self).light_wallpaper,
                light_exists,
            ));
            assert(texts(notes@) =~= after_light + wallpaper_note(
                "暗色"@,
                old(self).dark_wallpaper,
                dark_exists,
            ));
        }
        notes
    }
}

fn missing_wallpaper_note(label: &str, path: &String) -> (res: String)
    ensures
        res@ == label@ + "壁纸文件不存在，已清除："@ + path@,
{
    let mut note = String::from_str(label);
    note.append("壁纸文件不存在，已清除：");
    note.append(path.as_str());
    note
}

/// The corrected schedule; its notes are appended to `notes`.
fn correct_schedule(schedule: &Schedule, notes: &mut Vec<String>) -> (res: Schedule)
    ensures
        schedule_corrected(*schedule, res),
        texts(final(notes)@) == texts(old(notes)@) + schedule_notes(*schedule),
{
    match schedule {
        Schedule::Fixed { rules } => {
            let mut fixed: Vec<TimeRule> = Vec::new();
            let mut i: usize = 0;
            while i < rules.len()
                invariant
                    i <= rules.len(),
                    fixed@ == rules@.take(i as int).map_values(|r: TimeRule| clamp_rule(r)),
                    texts(notes@) == texts(old(notes)@) + clamp_notes(rules@.take(i as int)),
                decreases rules.len() - i,
            {
                let rule = rules[i];
                let ghost before = texts(notes@);
                if rule.minutes > LAST_MINUTE {
                    let mut note = String::from_str("时间点 ");
                    let number = decimal_string(rule.minutes as u64);
                    note.append(number.as_str());
                    note.append(" 超出范围，已收敛到 23:59");
                    notes.push(note);
                    fixed.push(TimeRule { minutes: LAST_MINUTE, ..rule });
                } else {
                    fixed.push(rule);
                }
                proof {
                    assert(rules@.take(i + 1).drop_last() =~= rules@.take(i as int));
                    assert(rules@.take(i + 1).last() == rule);
                    if rule.minutes > LAST_MINUTE {
                        assert(texts(notes@) =~= before.push(clamp_note(rule.minutes)));
                    } else {
                        assert(texts(notes@) =~= before);
                    }
                    assert(fixed@ =~= rules@.take(i + 1).map_values(|r: TimeRule| clamp_rule(r)));
                    assert(texts(notes@) =~= texts(old(notes)@) + clamp_notes(
                        rules@.take(i + 1),
                    ));
                }
                i = i + 1;
            }
            proof {
                assert(rules@.take(rules.len() as int) =~= rules@);
            }
            Schedule::Fixed { rules: fixed }
        },
        Schedule::Sun { latitude, longitude } => {
            let mut lat = *latitude;
            let mut lon = *longitude;
            if !(-LATITUDE_LIMIT <= lat && lat <= LATITUDE_LIMIT) {
                notes.push(String::from_str("纬度超出 -90~90，已重置为 39.9042"));
                lat = DEFAULT_LATITUDE;
            }
            if !(-LONGITUDE_LIMIT <= lon && lon <= LONGITUDE_LIMIT) {
                notes.push(String::from_str("经度超出 -180~180，已重置为 116.4074"));
                lon = DEFAULT_LONGITUDE;
            }
            proof {
                assert(texts(notes@) =~= texts(old(notes)@) + schedule_notes(*schedule));
            }
            Schedule::Sun { latitude: lat, longitude: lon }
        },
    }
}

/// The path of the configuration file inside the directory `dir`.
pub fn config_path(dir: &str) -> (res: String)
    ensures
        joins(dir@, FILE_NAME@, res@),
{
    proof {
        reveal_strlit("config.json");
    }
    join_path(dir, FILE_NAME)
}

/// Two configurations hold the same values.
pub open spec fn same_config(a: Config, b: Config) -> bool {
    &&& a.enabled == b.enabled
    &&& a.light_wallpaper == b.light_wallpaper
    &&& a.dark_wallpaper == b.dark_wallpaper
    &&& a.lock_screen == b.lock_screen
    &&& match (a.schedule, b.schedule) {
        (Schedule::Fixed { rules: x }, Schedule::Fixed { rules: y }) => x@ == y@,
        (Schedule::Sun { latitude: x, longitude: u }, Schedule::Sun { latitude: y, longitude: v }) => x
            == y && u == v,
        _ => false,
    }
}

impl Config {
    /// A copy of the configuration, holding the same values.
    pub fn copied(&self) -> (res: Config)
        ensures
            same_config(res, *self),
    {
        let schedule = match &self.schedule {
            Schedule::Fixed { rules } => {
                let mut copy: Vec<TimeRule> = Vec::new();
                let mut i: usize = 0;
                while i < rules.len()
                    invariant
                        i <= rules@.len(),
                        copy@ == rules@.take(i as int),
                    decreases rules.len() - i,
                {
                    copy.push(rules[i]);
                    proof {
                        assert(rules@.take(i + 1) =~= rules@.take(i as int).push(rules@[i as int]));
                    }
                    i = i + 1;
                }
                proof {
                    assert(rules@.take(rules@.len() as int) =~= rules@);
                }
                Schedule::Fixed { rules: copy }
            },
            Schedule::Sun { latitude, longitude } => Schedule::Sun {
                latitude: *latitude,
                longitude: *longitude,
            },
        };
        let light_wallpaper = match &self.light_wallpaper {
            Some(p) => Some(p.clone()),
            None => None,
        };
        let dark_wallpaper = match &self.dark_wallpaper {
            Some(p) => Some(p.clone()),
            None => None,
        };
        Config {
            enabled: self.enabled,
            light_wallpaper,
            dark_wallpaper,
            schedule,
            lock_screen: self.lock_screen,
        }
    }
}

/// The correction of a sun schedule keeps every coordinate on the globe,
/// south and west included, and reports nothing about it: a latitude in
/// -90°..=90° and a longitude in -180°..=180° stay as they are. A
/// coordinate off the globe is replaced by the default one, with its note.
pub proof fn law_coordinates_on_the_globe_are_kept(
    before: Config,
    after: Config,
    notes: Seq<Seq<char>>,
    light_exists: bool,
    dark_exists: bool,
    latitude: i64,
    longitude: i64,
)
    requires
        before.schedule == (Schedule::Sun { latitude, longitude }),
        before.corrected(after, notes, light_exists, dark_exists),
    ensures
        -90_000_000 <= latitude <= 90_000_000 ==> after.schedule->latitude == latitude,
        !(-90_000_000 <= latitude <= 90_000_000) ==> after.schedule->latitude == 39_904_200,
        -180_000_000 <= longitude <= 180_000_000 ==> after.schedule->longitude == longitude,
        !(-180_000_000 <= longitude <= 180_000_000) ==> after.schedule->longitude == 116_407_400,
        after.schedule is Sun,
        (-90_000_000 <= latitude <= 90_000_000 && -180_000_000 <= longitude <= 180_000_000
            && light_exists && dark_exists) ==> notes.len() == 0,
        !(-90_000_000 <= latitude <= 90_000_000) ==> notes[0] == "纬度超出 -90~90，已重置为 39.9042"@,
{
}

/// The correction pulls each rule time past 23:59 back to 23:59 and keeps
/// every other time, keeps each rule's mode and days and the order of the
/// rules; it keeps a configured wallpaper whose file exists and drops one
/// whose file is missing; the master switch and the lock-screen switch stay.
pub proof fn law_correction_clamps_times_and_drops_missing_wallpapers(
    before: Config,
    after: Config,
    notes: Seq<Seq<char>>,
    light_exists: bool,
    dark_exists: bool,
)
    requires
        before.corrected(after, notes, light_exists, dark_exists),
    ensures
        after.enabled == before.enabled,
        after.lock_screen == before.lock_screen,
        light_exists ==> after.light_wallpaper == before.light_wallpaper,
        !light_exists ==> after.light_wallpaper is None,
        dark_exists ==> after.dark_wallpaper == before.dark_wallpaper,
        !dark_exists ==> after.dark_wallpaper is None,
        before.schedule is Fixed ==> after.schedule is Fixed && after.schedule->rules@.len()
            == before.schedule->rules@.len() && forall|i: int|
            0 <= i < before.schedule->rules@.len() ==> {
                let old_rule = before.schedule->rules@[i];
                let new_rule = #[trigger] after.schedule->rules@[i];
                &&& new_rule.mode == old_rule.mode
                &&& new_rule.days == old_rule.days
                &&& old_rule.minutes <= 1439 ==> new_rule.minutes == old_rule.minutes
                &&& old_rule.minutes > 1439 ==> new_rule.minutes == 1439
            },
{
    if let Schedule::Fixed { rules } = before.schedule {
        if let Schedule::Fixed { rules: fixed } = after.schedule {
            assert forall|i: int| 0 <= i < rules@.len() implies #[trigger] fixed@[i] == clamp_rule(
                rules@[i],
            ) by {}
        }
    }
}

/// A mode is read back from its own name.
pub proof fn law_mode_name_round_trip(mode: Mode)
    ensures
        Mode::named(mode.name()) == Some(mode),
{
    reveal_strlit("light");
    reveal_strlit("dark");
    assert(ascii_lowercase("light"@) =~= "light"@);
    assert(ascii_lowercase("dark"@) =~= "dark"@);
    assert("light"@ != "dark"@) by {
        assert("light"@.len() != "dark"@.len());
    }
}

/// Reading a mode ignores ASCII case: a text and its lower-case form name
/// the same mode.
pub proof fn law_mode_parse_ignores_case(text: Seq<char>)
    ensures
        Mode::named(text) == Mode::named(ascii_lowercase(text)),
{
    assert(ascii_lowercase(ascii_lowercase(text)) =~= ascii_lowercase(text));
}

/// Every day of the week is either a weekday or a weekend day, never both,
/// and the daily filter admits every day.
pub proof fn law_day_filters_partition_the_week(day: Weekday)
    ensures
        DayFilter::Daily.admits(day),
        DayFilter::Weekdays.admits(day) != DayFilter::Weekend.admits(day),
{
}

/// The default configuration is in range.
pub proof fn law_default_config_is_sane(cfg: Config)
    requires
        cfg.is_default(),
    ensures
        cfg.is_sane(),
{
}

/// Whatever the file system says, a corrected configuration is in range.
pub proof fn law_corrected_config_is_sane(
    before: Config,
    after: Config,
    notes: Seq<Seq<char>>,
    light_exists: bool,
    dark_exists: bool,
)
    requires
        before.corrected(after, notes, light_exists, dark_exists),
    ensures
        after.is_sane(),
{
    match before.schedule {
        Schedule::Fixed { rules } => {
            if let Schedule::Fixed { rules: fixed } = after.schedule {
                assert forall|i: int| 0 <= i < fixed@.len() implies #[trigger] fixed@[i].minutes
                    <= LAST_MINUTE by {
                    assert(fixed@[i] == clamp_rule(rules@[i]));
                }
            }
        },
        Schedule::Sun { .. } => {},
    }
}

/// A configuration that is in range and whose wallpaper files exist is left
/// as it is, with nothing to report.
pub proof fn law_sane_config_is_left_alone(before: Config, after: Config, notes: Seq<Seq<char>>)
    requires
        before.is_sane(),
        before.corrected(after, notes, true, true),
    ensures
        same_config(before, after),
        notes.len() == 0,
{
    match before.schedule {
        Schedule::Fixed { rules } => {
            lemma_no_clamp_notes(rules@);
            if let Schedule::Fixed { rules: fixed } = after.schedule {
                assert(fixed@ =~= rules@);
            }
        },
        Schedule::Sun { .. } => {},
    }
}

/// Correcting a second time, with the file system unchanged, changes
/// nothing and reports nothing.
pub proof fn law_correction_is_idempotent(
    before: Config,
    middle: Config,
    after: Config,
    first: Seq<Seq<char>>,
    second: Seq<Seq<char>>,
    light_exists: bool,
    dark_exists: bool,
)
    requires
        before.corrected(middle, first, light_exists, dark_exists),
        middle.corrected(after, second, light_exists, dark_exists),
    ensures
        same_config(middle, after),
        second.len() == 0,
{
    law_corrected_config_is_sane(before, middle, first, light_exists, dark_exists);
    match middle.schedule {
        Schedule::Fixed { rules } => {
            lemma_no_clamp_notes(rules@);
            if let Schedule::Fixed { rules: fixed } = after.schedule {
                assert(fixed@ =~= rules@);
            }
        },
        Schedule::Sun { .. } => {},
    }
}

proof fn lemma_no_clamp_notes(rules: Seq<TimeRule>)
    requires
        forall|i: int| 0 <= i < rules.len() ==> #[trigger] rules[i].minutes <= LAST_MINUTE,
    ensures
        clamp_notes(rules) == Seq::<Seq<char>>::empty(),
    decreases rules.len(),
{
    if rules.len() > 0 {
        lemma_no_clamp_notes(rules.drop_last());
    }
}

} // verus!
