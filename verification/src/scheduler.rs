//! Scheduled downloads: when they run, how they repeat, and the book that
//! keeps them by id.
use vstd::prelude::*;
use crate::chunked::ChunkedDownloadConfig;
use crate::error::DownloadError;
use crate::text::{chars_of, push_str};

verus! {

/// An instant in UTC: whole seconds since the Unix epoch and the
/// nanoseconds within that second.
#[derive(Debug, Clone, Copy, PartialEq, Eq, Structural)]
pub struct UtcTime {
    pub secs: i64,
    pub nanos: u32,
}

/// `a` is not later than `b`.
pub open spec fn time_le(a: UtcTime, b: UtcTime) -> bool {
    a.secs < b.secs || (a.secs == b.secs && a.nanos <= b.nanos)
}

impl UtcTime {
    /// Whether `self` is not later than `other`.
    pub fn not_after(&self, other: &UtcTime) -> (r: bool)
        ensures
            r == time_le(*self, *other),
    {
        self.secs < other.secs || (self.secs == other.secs && self.nanos <= other.nanos)
    }
}

/// What chrono's `DateTime<Utc>::checked_add_signed` gives for the instant
/// `(secs, nanos)` moved by `delta` seconds (as seconds and nanoseconds),
/// `None` when the delta or the result is out of chrono's range.
pub uninterp spec fn chrono_add_seconds(secs: i64, nanos: u32, delta: i64) -> Option<(i64, u32)>;

/// Moves `t` by `delta` seconds with chrono (`DateTime::from_timestamp`,
/// `TimeDelta::try_seconds`, `DateTime::checked_add_signed`). The result is
/// named; for an instant that is not a leap second (nanoseconds below one
/// billion) a result that exists is `delta` seconds later with the same
/// nanoseconds, as chrono documents for its leap-second-free arithmetic.
#[verifier::external_body]
fn add_seconds(t: UtcTime, delta: i64) -> (r: Option<UtcTime>)
    ensures
        match r {
            Some(u) => chrono_add_seconds(t.secs, t.nanos, delta) == Some((u.secs, u.nanos)),
            None => chrono_add_seconds(t.secs, t.nanos, delta) is None,
        },
        t.nanos < 1_000_000_000 ==> (r matches Some(u) ==> u.secs == t.secs + delta && u.nanos == t.nanos),
{
    let dt = chrono::DateTime::from_timestamp(t.secs, t.nanos)?;
    let d = chrono::TimeDelta::try_seconds(delta)?;
    let moved = dt.checked_add_signed(d)?;
    Some(UtcTime { secs: moved.timestamp(), nanos: moved.timestamp_subsec_nanos() })
}

/// What chrono's `DateTime::parse_from_rfc3339` gives for `s`, converted to
/// UTC: the instant, or the text of the parse error.
pub uninterp spec fn rfc3339_parse(s: Seq<char>) -> Result<(i64, u32), Seq<char>>;

/// Parses an RFC 3339 time (chrono `DateTime::parse_from_rfc3339`, then
/// `with_timezone(&Utc)`); the result is named.
#[verifier::external_body]
fn parse_rfc3339(s: &str) -> (r: Result<UtcTime, String>)
    ensures
        match r {
            Ok(t) => rfc3339_parse(s@) == Ok::<(i64, u32), Seq<char>>((t.secs, t.nanos)),
            Err(m) => rfc3339_parse(s@) == Err::<(i64, u32), Seq<char>>(m@),
        },
{
    match chrono::DateTime::parse_from_rfc3339(s) {
        Ok(dt) => {
            let u = dt.with_timezone(&chrono::Utc);
            Ok(UtcTime { secs: u.timestamp(), nanos: u.timestamp_subsec_nanos() })
        },
        Err(e) => Err(e.to_string()),
    }
}

/// Reads the `--at` time of a new schedule entry.
pub fn parse_schedule_time(at: &str) -> (r: Result<UtcTime, DownloadError>)
    ensures
        match rfc3339_parse(at@) {
            Ok((s, n)) => r == Ok::<UtcTime, DownloadError>(UtcTime { secs: s, nanos: n }),
            Err(m) => r matches Err(DownloadError::InvalidUrl(t)) && t@ == "Invalid time format: "@ + m,
        },
{
    match parse_rfc3339(at) {
        Ok(t) => Ok(t),
        Err(m) => {
            let mut t = String::from_str("Invalid time format: ");
            push_str(&mut t, m.as_str());
            Err(DownloadError::InvalidUrl(t))
        },
    }
}

/// How often a scheduled download repeats.
#[derive(Debug)]
pub enum RepeatPattern {
    Daily,
    Weekly,
    Monthly,
    Hourly,
    EveryMinutes(u64),
    EveryHours(u64),
    EveryDays(u64),
    Cron(String),
}

impl Clone for RepeatPattern {
    fn clone(&self) -> (r: Self)
        ensures
            r == *self,
    {
        match self {
            RepeatPattern::Daily => RepeatPattern::Daily,
            RepeatPattern::Weekly => RepeatPattern::Weekly,
            RepeatPattern::Monthly => RepeatPattern::Monthly,
            RepeatPattern::Hourly => RepeatPattern::Hourly,
            RepeatPattern::EveryMinutes(m) => RepeatPattern::EveryMinutes(*m),
            RepeatPattern::EveryHours(h) => RepeatPattern::EveryHours(*h),
            RepeatPattern::EveryDays(d) => RepeatPattern::EveryDays(*d),
            RepeatPattern::Cron(c) => RepeatPattern::Cron(c.clone()),
        }
    }
}

/// `count` units of `unit` seconds, the count first taken as an `i64`
/// (bit for bit); `None` when the product leaves the `i64` range.
pub open spec fn scaled(count: u64, unit: int) -> Option<i64> {
    let c = count as i64;
    if i64::MIN <= c * unit <= i64::MAX {
        Some((c * unit) as i64)
    } else {
        None
    }
}

/// The step between two runs, in seconds: an hour, a day, a week, thirty
/// days, or the given number of minutes, hours or days. A cron expression
/// is not interpreted: it repeats hourly.
pub open spec fn repeat_step(p: RepeatPattern) -> Option<i64> {
    match p {
        RepeatPattern::Hourly => Some(3600),
        RepeatPattern::Daily => Some(86400),
        RepeatPattern::Weekly => Some(604800),
        RepeatPattern::Monthly => Some(2592000),
        RepeatPattern::EveryMinutes(m) => scaled(m, 60),
        RepeatPattern::EveryHours(h) => scaled(h, 3600),
        RepeatPattern::EveryDays(d) => scaled(d, 86400),
        RepeatPattern::Cron(_) => Some(3600),
    }
}

/// The run after one at `from`, when the step and the moved instant are
/// within chrono's range.
pub open spec fn next_run_spec(p: RepeatPattern, from: UtcTime) -> Option<UtcTime> {
    match repeat_step(p) {
        Some(step) => match chrono_add_seconds(from.secs, from.nanos, step) {
            Some((s, n)) => Some(UtcTime { secs: s, nanos: n }),
            None => None,
        },
        None => None,
    }
}

fn scale(count: u64, unit: i64) -> (r: Option<i64>)
    requires
        unit > 0,
    ensures
        r == scaled(count, unit as int),
{
    let c = count as i64;
    c.checked_mul(unit)
}

/// The pattern a command line name stands for.
pub open spec fn repeat_named(name: Seq<char>) -> Option<RepeatPattern> {
    if name == "daily"@ {
        Some(RepeatPattern::Daily)
    } else if name == "weekly"@ {
        Some(RepeatPattern::Weekly)
    } else if name == "hourly"@ {
        Some(RepeatPattern::Hourly)
    } else if name == "monthly"@ {
        Some(RepeatPattern::Monthly)
    } else {
        None
    }
}

impl RepeatPattern {
    /// The pattern named on the command line: `daily`, `weekly`, `hourly`
    /// or `monthly`; any other name gives none.
    pub fn from_cli_name(name: &str) -> (r: Option<RepeatPattern>)
        ensures
            name@ == "daily"@ ==> r == Some(RepeatPattern::Daily),
            name@ == "weekly"@ ==> r == Some(RepeatPattern::Weekly),
            name@ == "hourly"@ ==> r == Some(RepeatPattern::Hourly),
            name@ == "monthly"@ ==> r == Some(RepeatPattern::Monthly),
            name@ != "daily"@ && name@ != "weekly"@ && name@ != "hourly"@ && name@ != "monthly"@ ==> r is None,
            r == repeat_named(name@),
    {
        proof {
            reveal_strlit("daily");
            reveal_strlit("weekly");
            reveal_strlit("hourly");
            reveal_strlit("monthly");
            assert("daily"@.len() != "hourly"@.len());
            assert("daily"@.len() != "monthly"@.len());
            assert("daily"@.len() != "weekly"@.len());
            assert("weekly"@.len() != "monthly"@.len());
            assert("hourly"@.len() != "monthly"@.len());
            assert("weekly"@[0] != "hourly"@[0]);
        }
        let n = chars_of(name);
        let daily = chars_of("daily");
        let weekly = chars_of("weekly");
        let hourly = chars_of("hourly");
        let monthly = chars_of("monthly");
        if crate::text::same_chars(&n, &daily) {
            Some(RepeatPattern::Daily)
        } else if crate::text::same_chars(&n, &weekly) {
            Some(RepeatPattern::Weekly)
        } else if crate::text::same_chars(&n, &hourly) {
            Some(RepeatPattern::Hourly)
        } else if crate::text::same_chars(&n, &monthly) {
            Some(RepeatPattern::Monthly)
        } else {
            None
        }
    }

    /// The step between runs in seconds, `None` when it leaves chrono's
    /// `i64` range of seconds.
    pub fn step(&self) -> (r: Option<i64>)
        ensures
            r == repeat_step(*self),
    {
        match self {
            RepeatPattern::Hourly => Some(3600),
            RepeatPattern::Daily => Some(86400),
            RepeatPattern::Weekly => Some(604800),
            RepeatPattern::Monthly => Some(2592000),
            RepeatPattern::EveryMinutes(m) => scale(*m, 60),
            RepeatPattern::EveryHours(h) => scale(*h, 3600),
            RepeatPattern::EveryDays(d) => scale(*d, 86400),
            RepeatPattern::Cron(_) => Some(3600),
        }
    }

    /// When the next run after one at `from` is due, or `None` when that
    /// instant cannot be represented.
    pub fn try_next_run(&self, from: UtcTime) -> (r: Option<UtcTime>)
        ensures
            r == next_run_spec(*self, from),
            from.nanos < 1_000_000_000 ==> (r matches Some(u) ==> (repeat_step(*self) matches Some(step)
                && u.secs == from.secs + step && u.nanos == from.nanos)),
    {
        match self.step() {
            Some(step) => add_seconds(from, step),
            None => None,
        }
    }

    /// When the next run after one at `from` is due.
    pub fn next_run(&self, from: UtcTime) -> (r: UtcTime)
        requires
            next_run_spec(*self, from) is Some,
        ensures
            Some(r) == next_run_spec(*self, from),
            from.nanos < 1_000_000_000 ==> (repeat_step(*self) matches Some(step) && r.secs == from.secs + step
                && r.nanos == from.nanos),
    {
        match self.try_next_run(from) {
            Some(t) => t,
            None => from,
        }
    }
}

/// Download settings a scheduled entry may override.
#[derive(Debug, Clone, Copy, PartialEq, Eq, Structural)]
pub struct ScheduledDownloadConfig {
    pub chunk_size: Option<u64>,
    pub max_concurrent_chunks: Option<usize>,
    pub timeout_secs: Option<u64>,
}

impl ScheduledDownloadConfig {
    /// `base` with every setting this entry gives replaced.
    pub fn apply(&self, base: ChunkedDownloadConfig) -> (r: ChunkedDownloadConfig)
        ensures
            r.chunk_size == (match self.chunk_size {
                Some(c) => c,
                None => base.chunk_size,
            }),
            r.max_concurrent_chunks == (match self.max_concurrent_chunks {
                Some(m) => m,
                None => base.max_concurrent_chunks,
            }),
            r.timeout == (match self.timeout_secs {
                Some(t) => t,
                None => base.timeout,
            }),
            r.strategy == base.strategy,
            r.progress_config == base.progress_config,
            r.adaptive_chunk_sizing == base.adaptive_chunk_sizing,
    {
        let mut config = base;
        if let Some(c) = self.chunk_size {
            config = config.chunk_size(c);
        }
        if let Some(m) = self.max_concurrent_chunks {
            config = config.max_concurrent_chunks(m);
        }
        if let Some(t) = self.timeout_secs {
            config = config.timeout(t);
        }
        config
    }
}


/// One scheduled download. `output_path` is where the file goes.
#[derive(Debug)]
pub struct ScheduledDownload {
    pub id: String,
    pub url: String,
    pub output_path: String,
    pub scheduled_time: UtcTime,
    pub repeat: Option<RepeatPattern>,
    pub enabled: bool,
    pub last_run: Option<UtcTime>,
    pub next_run: Option<UtcTime>,
    pub download_config: Option<ScheduledDownloadConfig>,
}

impl Clone for ScheduledDownload {
    fn clone(&self) -> (r: Self)
        ensures
            r == *self,
    {
        let repeat = match &self.repeat {
            Some(p) => Some(p.clone()),
            None => None,
        };
        ScheduledDownload {
            id: self.id.clone(),
            url: self.url.clone(),
            output_path: self.output_path.clone(),
            scheduled_time: self.scheduled_time,
            repeat,
            enabled: self.enabled,
            last_run: self.last_run,
            next_run: self.next_run,
            download_config: self.download_config,
        }
    }
}

/// The entry must run at `now`: it is enabled and its next run is due.
pub open spec fn is_due(d: ScheduledDownload, now: UtcTime) -> bool {
    d.enabled && (d.next_run matches Some(t) && time_le(t, now))
}

/// The entry after a run at `now`: unchanged when the run failed;
/// otherwise `last_run` is `now` and the entry is re-armed for its next
/// repetition, or disabled when it does not repeat.
pub open spec fn after_run_spec(d: ScheduledDownload, now: UtcTime, success: bool) -> Option<ScheduledDownload> {
    if !success {
        Some(d)
    } else {
        match d.repeat {
            Some(p) => match next_run_spec(p, now) {
                Some(t) => Some(ScheduledDownload { last_run: Some(now), next_run: Some(t), ..d }),
                None => None,
            },
            None => Some(ScheduledDownload { last_run: Some(now), enabled: false, ..d }),
        }
    }
}

/// The entry a `schedule add` command describes, before it is stored.
pub open spec fn entry_from_cli(
    id: String,
    url: String,
    output: String,
    at: UtcTime,
    repeat: Option<Seq<char>>,
) -> ScheduledDownload {
    ScheduledDownload {
        id,
        url,
        output_path: output,
        scheduled_time: at,
        repeat: match repeat {
            Some(name) => repeat_named(name),
            None => None,
        },
        enabled: true,
        last_run: None,
        next_run: None,
        download_config: None,
    }
}

impl ScheduledDownload {
    /// The entry `schedule add` describes: enabled, never run, first due at
    /// the RFC 3339 time `at`, repeating as `repeat` names (an unknown name
    /// means no repetition). A malformed time is refused with
    /// `Invalid time format: <reason>`.
    pub fn from_cli(id: String, url: String, output: String, at: &str, repeat: Option<&str>) -> (r: Result<
        Self,
        DownloadError,
    >)
        ensures
            match rfc3339_parse(at@) {
                Ok((s, n)) => r == Ok::<ScheduledDownload, DownloadError>(
                    entry_from_cli(
                        id,
                        url,
                        output,
                        UtcTime { secs: s, nanos: n },
                        match repeat {
                            Some(x) => Some(x@),
                            None => None,
                        },
                    ),
                ),
                Err(m) => r matches Err(DownloadError::InvalidUrl(t)) && t@ == "Invalid time format: "@ + m,
            },
    {
        let scheduled_time = match parse_schedule_time(at) {
            Ok(t) => t,
            Err(e) => return Err(e),
        };
        let pattern = match repeat {
            Some(name) => RepeatPattern::from_cli_name(name),
            None => None,
        };
        Ok(ScheduledDownload {
            id,
            url,
            output_path: output,
            scheduled_time,
            repeat: pattern,
            enabled: true,
            last_run: None,
            next_run: None,
            download_config: None,
        })
    }

    /// `enabled` or `disabled`, as the entry is listed.
    pub fn status_text(&self) -> (r: &'static str)
        ensures
            r@ == (if self.enabled { "enabled"@ } else { "disabled"@ }),
    {
        if self.enabled {
            "enabled"
        } else {
            "disabled"
        }
    }

    /// The entry as it is stored when added: its first run is at its
    /// scheduled time.
    pub fn armed(self) -> (r: Self)
        ensures
            r == (ScheduledDownload { next_run: Some(self.scheduled_time), ..self }),
    {
        let t = self.scheduled_time;
        ScheduledDownload { next_run: Some(t), ..self }
    }

    /// Whether the entry must run at `now`.
    pub fn due_at(&self, now: UtcTime) -> (r: bool)
        ensures
            r == is_due(*self, now),
    {
        if !self.enabled {
            return false;
        }
        match self.next_run {
            Some(t) => t.not_after(&now),
            None => false,
        }
    }

    /// The entry after a run at `now` that succeeded or failed.
    pub fn after_run(self, now: UtcTime, success: bool) -> (r: Self)
        requires
            after_run_spec(self, now, success) is Some,
        ensures
            Some(r) == after_run_spec(self, now, success),
            success && now.nanos < 1_000_000_000 && (self.repeat matches Some(p) ==> (repeat_step(p) matches Some(st)
                && st > 0)) ==> !is_due(r, now),
    {
        if !success {
            return self;
        }
        match &self.repeat {
            Some(p) => {
                let t = p.next_run(now);
                ScheduledDownload { last_run: Some(now), next_run: Some(t), ..self }
            },
            None => ScheduledDownload { last_run: Some(now), enabled: false, ..self },
        }
    }

    /// The entry after a run at `now`, or `None` when the next repetition
    /// would fall outside the representable range of instants.
    pub fn try_after_run(self, now: UtcTime, success: bool) -> (r: Option<Self>)
        ensures
            r == after_run_spec(self, now, success),
            success && now.nanos < 1_000_000_000 && (self.repeat matches Some(p) ==> (repeat_step(p) matches Some(st)
                && st > 0)) ==> (r matches Some(x) ==> !is_due(x, now)),
    {
        if success {
            if let Some(p) = &self.repeat {
                if p.try_next_run(now).is_none() {
                    return None;
                }
            }
        }
        Some(self.after_run(now, success))
    }
}

/// Whether the scheduler's loop has been started.
pub struct RunFlag {
    running: bool,
}

impl RunFlag {
    /// A scheduler that has not been started.
    pub fn new() -> (r: Self)
        ensures
            !r.is_running_spec(),
    {
        RunFlag { running: false }
    }

    pub closed spec fn is_running_spec(&self) -> bool {
        self.running
    }

    /// Whether the loop runs.
    pub fn is_running(&self) -> (r: bool)
        ensures
            r == self.is_running_spec(),
    {
        self.running
    }

    /// Starts the loop; a scheduler that already runs refuses with
    /// `Scheduler already running` and stays as it is.
    pub fn start(&mut self) -> (r: Result<(), DownloadError>)
        ensures
            old(self).is_running_spec() ==> (r matches Err(DownloadError::InvalidUrl(m)) && m@
                == "Scheduler already running"@),
            !old(self).is_running_spec() ==> r is Ok,
            final(self).is_running_spec(),
    {
        if self.running {
            return Err(DownloadError::InvalidUrl(String::from_str("Scheduler already running")));
        }
        self.running = true;
        Ok(())
    }

    /// Stops the loop.
    pub fn stop(&mut self)
        ensures
            !final(self).is_running_spec(),
    {
        self.running = false;
    }
}

/// Position of the first entry with id `id` at or after `k`, or -1.
pub open spec fn position_from(s: Seq<ScheduledDownload>, id: Seq<char>, k: int) -> int
    decreases s.len() - k,
{
    if k < 0 || k >= s.len() {
        -1
    } else if s[k].id@ == id {
        k
    } else {
        position_from(s, id, k + 1)
    }
}

/// Position of the entry with id `id`, or -1.
pub open spec fn position_of(s: Seq<ScheduledDownload>, id: Seq<char>) -> int {
    position_from(s, id, 0)
}

/// No two entries share an id.
pub open spec fn unique_ids(s: Seq<ScheduledDownload>) -> bool {
    forall|i: int, j: int| 0 <= i < s.len() && 0 <= j < s.len() && i != j ==> (#[trigger] s[i]).id@ != (#[trigger] s[j]).id@
}

proof fn lemma_position_from(s: Seq<ScheduledDownload>, id: Seq<char>, k: int)
    requires
        0 <= k,
    ensures
        position_from(s, id, k) == -1 ==> forall|j: int| k <= j < s.len() ==> (#[trigger] s[j]).id@ != id,
        position_from(s, id, k) != -1 ==> k <= position_from(s, id, k) < s.len() && s[position_from(s, id, k)].id@ == id,
    decreases s.len() - k,
{
    if k < s.len() && s[k].id@ != id {
        lemma_position_from(s, id, k + 1);
    }
}

proof fn lemma_position_unique(s: Seq<ScheduledDownload>, id: Seq<char>, p: int)
    requires
        unique_ids(s),
        0 <= p < s.len(),
        s[p].id@ == id,
    ensures
        position_of(s, id) == p,
{
    lemma_position_from(s, id, 0);
    if position_of(s, id) != p {
        assert(s[position_of(s, id)].id@ == s[p].id@);
    }
}

/// The scheduled downloads, keyed by id.
pub struct ScheduleBook {
    entries: Vec<ScheduledDownload>,
}

impl View for ScheduleBook {
    type V = Seq<ScheduledDownload>;

    closed spec fn view(&self) -> Seq<ScheduledDownload> {
        self.entries@
    }
}

impl ScheduleBook {
    /// The book's invariant: ids are unique.
    pub open spec fn wf(&self) -> bool {
        unique_ids(self@)
    }

    /// An empty book.
    pub fn new() -> (r: Self)
        ensures
            r.wf(),
            r@.len() == 0,
    {
        ScheduleBook { entries: Vec::new() }
    }

    /// Number of entries.
    pub fn len(&self) -> (n: usize)
        ensures
            n == self@.len(),
    {
        self.entries.len()
    }

    /// Position of the entry with id `id`.
    pub fn find(&self, id: &str) -> (r: Option<usize>)
        ensures
            match r {
                Some(p) => p == position_of(self@, id@),
                None => position_of(self@, id@) == -1,
            },
    {
        proof {
            lemma_position_from(self@, id@, 0);
        }
        let key = chars_of(id);
        let mut i: usize = 0;
        while i < self.entries.len()
            invariant
                i <= self@.len(),
                key@ == id@,
                position_of(self@, id@) == position_from(self@, id@, i as int),
            decreases self@.len() - i,
        {
            let here = chars_of(self.entries[i].id.as_str());
            if crate::text::same_chars(&here, &key) {
                return Some(i);
            }
            i = i + 1;
        }
        None
    }

    /// The entry with id `id`, if any.
    pub fn get(&self, id: &str) -> (r: Option<ScheduledDownload>)
        ensures
            match r {
                Some(d) => position_of(self@, id@) >= 0 && d == self@[position_of(self@, id@)],
                None => position_of(self@, id@) == -1,
            },
    {
        proof {
            lemma_position_from(self@, id@, 0);
        }
        match self.find(id) {
            Some(p) => Some(self.entries[p].clone()),
            None => None,
        }
    }

    /// Stores `d` under its id, replacing the entry with that id if there is one.
    pub fn insert(&mut self, d: ScheduledDownload)
        requires
            old(self).wf(),
        ensures
            final(self).wf(),
            position_of(old(self)@, d.id@) >= 0 ==> final(self)@ == old(self)@.update(
                position_of(old(self)@, d.id@),
                d,
            ),
            position_of(old(self)@, d.id@) == -1 ==> final(self)@ == old(self)@.push(d),
    {
        proof {
            lemma_position_from(self@, d.id@, 0);
        }
        let ghost before = self@;
        match self.find(d.id.as_str()) {
            Some(p) => {
                self.entries.set(p, d);
                proof {
                    assert forall|i: int, j: int|
                        0 <= i < self@.len() && 0 <= j < self@.len() && i != j implies (#[trigger] self@[i]).id@
                        != (#[trigger] self@[j]).id@ by {
                        if i != p && j != p {
                            assert(before[i].id@ != before[j].id@);
                        } else if i == p {
                            assert(before[j].id@ != before[p as int].id@);
                        } else {
                            assert(before[i].id@ != before[p as int].id@);
                        }
                    }
                }
            },
            None => {
                self.entries.push(d);
                proof {
                    assert forall|i: int, j: int|
                        0 <= i < self@.len() && 0 <= j < self@.len() && i != j implies (#[trigger] self@[i]).id@
                        != (#[trigger] self@[j]).id@ by {
                        if i < before.len() && j < before.len() {
                            assert(before[i].id@ != before[j].id@);
                        }
                    }
                }
            },
        }
    }

    /// Adds a new entry, armed for its scheduled time (see `ScheduledDownload::armed`).
    pub fn add(&mut self, d: ScheduledDownload)
        requires
            old(self).wf(),
        ensures
            final(self).wf(),
            ({
                let a = ScheduledDownload { next_run: Some(d.scheduled_time), ..d };
                &&& position_of(old(self)@, d.id@) >= 0 ==> final(self)@ == old(self)@.update(position_of(old(self)@, d.id@), a)
                &&& position_of(old(self)@, d.id@) == -1 ==> final(self)@ == old(self)@.push(a)
            }),
    {
        let a = d.armed();
        self.insert(a);
    }

    /// Removes the entry with id `id`; tells whether there was one.
    pub fn remove(&mut self, id: &str) -> (r: bool)
        requires
            old(self).wf(),
        ensures
            final(self).wf(),
            r == (position_of(old(self)@, id@) >= 0),
            r ==> final(self)@ == old(self)@.remove(position_of(old(self)@, id@)),
            !r ==> final(self)@ == old(self)@,
    {
        proof {
            lemma_position_from(self@, id@, 0);
        }
        let ghost before = self@;
        match self.find(id) {
            Some(p) => {
                self.entries.remove(p);
                proof {
                    assert forall|i: int, j: int|
                        0 <= i < self@.len() && 0 <= j < self@.len() && i != j implies (#[trigger] self@[i]).id@
                        != (#[trigger] self@[j]).id@ by {
                        let bi = if i < p { i } else { i + 1 };
                        let bj = if j < p { j } else { j + 1 };
                        assert(before[bi].id@ != before[bj].id@);
                    }
                }
                true
            },
            None => false,
        }
    }

    /// Enables or disables the entry with id `id`; tells whether there was one.
    pub fn set_enabled(&mut self, id: &str, enabled: bool) -> (r: bool)
        requires
            old(self).wf(),
        ensures
            final(self).wf(),
            r == (position_of(old(self)@, id@) >= 0),
            r ==> final(self)@ == old(self)@.update(
                position_of(old(self)@, id@),
                ScheduledDownload { enabled: enabled, ..old(self)@[position_of(old(self)@, id@)] },
            ),
            !r ==> final(self)@ == old(self)@,
    {
        proof {
            lemma_position_from(self@, id@, 0);
        }
        let ghost before = self@;
        match self.find(id) {
            Some(p) => {
                let mut d = self.entries[p].clone();
                d.enabled = enabled;
                self.entries.set(p, d);
                proof {
                    assert forall|i: int, j: int|
                        0 <= i < self@.len() && 0 <= j < self@.len() && i != j implies (#[trigger] self@[i]).id@
                        != (#[trigger] self@[j]).id@ by {
                        assert(before[i].id@ != before[j].id@);
                    }
                }
                true
            },
            None => false,
        }
    }

    /// All entries, in stored order.
    pub fn list(&self) -> (r: Vec<ScheduledDownload>)
        ensures
            r@ == self@,
    {
        let mut r: Vec<ScheduledDownload> = Vec::new();
        let mut i: usize = 0;
        while i < self.entries.len()
            invariant
                i <= self@.len(),
                r@ == self@.take(i as int),
            decreases self@.len() - i,
        {
            r.push(self.entries[i].clone());
            i = i + 1;
            assert(r@ =~= self@.take(i as int));
        }
        assert(self@.take(self@.len() as int) =~= self@);
        r
    }

    /// The entries that must run at `now`, in stored order.
    pub fn due(&self, now: UtcTime) -> (r: Vec<ScheduledDownload>)
        ensures
            r@ == self@.filter(|d: ScheduledDownload| is_due(d, now)),
    {
        let mut r: Vec<ScheduledDownload> = Vec::new();
        let mut i: usize = 0;
        while i < self.entries.len()
            invariant
                i <= self@.len(),
                r@ == self@.take(i as int).filter(|d: ScheduledDownload| is_due(d, now)),
            decreases self@.len() - i,
        {
            proof {
                let s = self@;
                s.take(i as int).lemma_filter_push(s[i as int], |d: ScheduledDownload| is_due(d, now));
                assert(s.take(i + 1) =~= s.take(i as int).push(s[i as int]));
            }
            if self.entries[i].due_at(now) {
                r.push(self.entries[i].clone());
            }
            i = i + 1;
        }
        assert(self@.take(self@.len() as int) =~= self@);
        r
    }
}


/// After `insert(d)` the book finds `d` under its id, and the ids stay unique.
pub proof fn lemma_insert_then_get(before: Seq<ScheduledDownload>, after: Seq<ScheduledDownload>, d: ScheduledDownload)
    requires
        unique_ids(before),
        unique_ids(after),
        position_of(before, d.id@) >= 0 ==> after == before.update(position_of(before, d.id@), d),
        position_of(before, d.id@) == -1 ==> after == before.push(d),
    ensures
        position_of(after, d.id@) >= 0,
        after[position_of(after, d.id@)] == d,
{
    lemma_position_from(before, d.id@, 0);
    if position_of(before, d.id@) >= 0 {
        lemma_position_unique(after, d.id@, position_of(before, d.id@));
    } else {
        lemma_position_unique(after, d.id@, before.len() as int);
    }
}

/// After `remove(id)` no entry carries `id`.
pub proof fn lemma_remove_then_absent(before: Seq<ScheduledDownload>, after: Seq<ScheduledDownload>, id: Seq<char>)
    requires
        unique_ids(before),
        position_of(before, id) >= 0 ==> after == before.remove(position_of(before, id)),
        position_of(before, id) == -1 ==> after == before,
    ensures
        position_of(after, id) == -1,
{
    lemma_position_from(before, id, 0);
    lemma_position_from(after, id, 0);
    if position_of(after, id) != -1 {
        let q = position_of(after, id);
        let p = position_of(before, id);
        if p >= 0 {
            let bq = if q < p { q } else { q + 1 };
            assert(after[q] == before[bq]);
            assert(before[bq].id@ == before[p].id@);
        }
    }
}

} // verus!
