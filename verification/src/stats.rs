//! Usage, analytics and history records: the append-only session log and
//! the aggregates derived from it.  Reading and writing them to disk is
//! the shell's business; the update logic lives here.

use vstd::prelude::*;
use vstd::string::StringExecFns;

use crate::text::{decimal_digits, u64_to_string};

verus! {

/// One complete transcription attempt, written once and persisted.
pub struct RecordingSession {
    /// Opaque unique identifier.
    pub id: String,
    /// Milliseconds since the Unix epoch.
    pub timestamp_ms: u64,
    /// Time spent processing, in milliseconds.
    pub duration_ms: u64,
    /// Length of the captured audio, in milliseconds.
    pub audio_length_ms: u64,
    /// Characters in the transcript.
    pub transcription_length: usize,
    /// The transcript itself, possibly empty.
    pub transcribed_text: String,
    /// Same processing time, kept under the name the log uses.
    pub processing_time_ms: u64,
    /// Whether the gateway call succeeded.
    pub success: bool,
    /// Error detail on failure, or a note on an empty transcript.
    pub error_message: Option<String>,
}

/// Bound on every stored duration and count, far beyond realistic use,
/// so that the running totals can never overflow.
pub open spec fn session_sane(s: RecordingSession) -> bool {
    &&& s.duration_ms <= 0x10000000000
    &&& s.audio_length_ms <= 0x10000000000
    &&& s.processing_time_ms <= 0x10000000000
    &&& s.transcription_length <= 0x10000000000
}

/// Running totals over all recorded sessions, plus the recent session log.
pub struct UsageStats {
    pub total_recordings: u64,
    pub total_duration_ms: u64,
    pub total_processing_time_ms: u64,
    pub successful_recordings: u64,
    pub failed_recordings: u64,
    pub total_characters_transcribed: u64,
    /// First and most recent use, in milliseconds since the Unix epoch.
    pub first_use_ms: u64,
    pub last_use_ms: u64,
    /// The most recent sessions, oldest first, at most `SESSION_CAP`.
    pub sessions: Vec<RecordingSession>,
}

/// How many sessions the log keeps.
pub const SESSION_CAP: usize = 1000;

pub open spec fn stats_wf(s: UsageStats) -> bool {
    &&& s.sessions@.len() <= SESSION_CAP as int
    &&& s.total_recordings <= 0x100000000000000
    &&& s.total_duration_ms <= 0x100000000000000
    &&& s.total_processing_time_ms <= 0x100000000000000
    &&& s.successful_recordings <= 0x100000000000000
    &&& s.failed_recordings <= 0x100000000000000
    &&& s.total_characters_transcribed <= 0x100000000000000
}

impl UsageStats {
    /// Fresh totals: everything zero, both use marks at `now_ms`.
    pub fn new(now_ms: u64) -> (s: UsageStats)
        ensures
            stats_wf(s),
            s.total_recordings == 0,
            s.total_duration_ms == 0,
            s.total_processing_time_ms == 0,
            s.successful_recordings == 0,
            s.failed_recordings == 0,
            s.total_characters_transcribed == 0,
            s.first_use_ms == now_ms,
            s.last_use_ms == now_ms,
            s.sessions@.len() == 0,
    {
        UsageStats {
            total_recordings: 0,
            total_duration_ms: 0,
            total_processing_time_ms: 0,
            successful_recordings: 0,
            failed_recordings: 0,
            total_characters_transcribed: 0,
            first_use_ms: now_ms,
            last_use_ms: now_ms,
            sessions: Vec::new(),
        }
    }

    /// Append one session: every total grows by the session's numbers,
    /// exactly one of the success or failure counters steps, the last-use
    /// mark takes the session's timestamp, and the log keeps only the
    /// most recent `SESSION_CAP` sessions.
    pub fn add_recording(&mut self, session: RecordingSession)
        requires
            stats_wf(*old(self)),
            session_sane(session),
            old(self).total_recordings < 0x100000000000000,
            old(self).total_duration_ms + session.duration_ms <= 0x100000000000000,
            old(self).total_processing_time_ms + session.processing_time_ms
                <= 0x100000000000000,
            old(self).successful_recordings < 0x100000000000000,
            old(self).failed_recordings < 0x100000000000000,
            old(self).total_characters_transcribed + session.transcription_length
                <= 0x100000000000000,
        ensures
            stats_wf(*final(self)),
            final(self).total_recordings == old(self).total_recordings + 1,
            final(self).total_duration_ms == old(self).total_duration_ms + session.duration_ms,
            final(self).total_processing_time_ms == old(self).total_processing_time_ms
                + session.processing_time_ms,
            final(self).total_characters_transcribed == old(
                self,
            ).total_characters_transcribed + session.transcription_length,
            session.success ==> final(self).successful_recordings == old(
                self,
            ).successful_recordings + 1 && final(self).failed_recordings == old(
                self,
            ).failed_recordings,
            !session.success ==> final(self).failed_recordings == old(self).failed_recordings
                + 1 && final(self).successful_recordings == old(self).successful_recordings,
            final(self).last_use_ms == session.timestamp_ms,
            final(self).first_use_ms == old(self).first_use_ms,
            old(self).sessions@.len() < SESSION_CAP as int ==> final(self).sessions@ == old(
                self,
            ).sessions@.push(session),
            old(self).sessions@.len() == SESSION_CAP as int ==> final(self).sessions@ == old(
                self,
            ).sessions@.drop_first().push(session),
    {
        self.total_recordings = self.total_recordings + 1;
        self.total_duration_ms = self.total_duration_ms + session.duration_ms;
        self.total_processing_time_ms = self.total_processing_time_ms
            + session.processing_time_ms;
        self.total_characters_transcribed = self.total_characters_transcribed
            + session.transcription_length as u64;
        if session.success {
            self.successful_recordings = self.successful_recordings + 1;
        } else {
            self.failed_recordings = self.failed_recordings + 1;
        }
        self.last_use_ms = session.timestamp_ms;
        if self.sessions.len() == SESSION_CAP {
            self.sessions.remove(0);
        }
        self.sessions.push(session);
    }

    /// Mean audio duration per recording, in milliseconds; zero with no
    /// recordings.
    pub fn get_average_duration(&self) -> (r: u64)
        ensures
            self.total_recordings == 0 ==> r == 0,
            self.total_recordings > 0 ==> r == self.total_duration_ms as int
                / self.total_recordings as int,
    {
        if self.total_recordings == 0 {
            0
        } else {
            self.total_duration_ms / self.total_recordings
        }
    }

    /// Mean processing time per recording, in milliseconds; zero with no
    /// recordings.
    pub fn get_average_processing_time(&self) -> (r: u64)
        ensures
            self.total_recordings == 0 ==> r == 0,
            self.total_recordings > 0 ==> r == self.total_processing_time_ms as int
                / self.total_recordings as int,
    {
        if self.total_recordings == 0 {
            0
        } else {
            self.total_processing_time_ms / self.total_recordings
        }
    }

    /// Share of successful recordings, in tenths of a percent; zero with
    /// no recordings.
    pub fn get_success_rate(&self) -> (r: u64)
        requires
            self.successful_recordings <= self.total_recordings,
        ensures
            self.total_recordings == 0 ==> r == 0,
            self.total_recordings > 0 ==> r == (self.successful_recordings as int * 1000)
                / self.total_recordings as int,
            r <= 1000,
    {
        if self.total_recordings == 0 {
            0
        } else {
            let s = self.successful_recordings as u128;
            let t = self.total_recordings as u128;
            proof {
                vstd::arithmetic::mul::lemma_mul_inequality(s as int, t as int, 1000);
                vstd::arithmetic::div_mod::lemma_div_is_ordered(
                    s as int * 1000,
                    t as int * 1000,
                    t as int,
                );
                assert((t as int * 1000) / (t as int) == 1000) by {
                    vstd::arithmetic::div_mod::lemma_div_by_multiple(1000, t as int);
                    vstd::arithmetic::mul::lemma_mul_is_commutative(t as int, 1000);
                }
                vstd::arithmetic::div_mod::lemma_div_pos_is_pos(s as int * 1000, t as int);
            }
            ((s * 1000) / t) as u64
        }
    }

    /// The total audio duration rendered as hours, minutes and seconds.
    pub fn get_total_duration_formatted(&self) -> (r: String)
        ensures
            r@ == formatted_duration(self.total_duration_ms as int),
    {
        let total_s = self.total_duration_ms / 1000;
        let hours = total_s / 3600;
        let minutes = (total_s % 3600) / 60;
        let seconds = total_s % 60;
        let mut out = u64_to_string(hours);
        out.append("h ");
        let m = u64_to_string(minutes);
        out.append(m.as_str());
        out.append("m ");
        let s = u64_to_string(seconds);
        out.append(s.as_str());
        out.append("s");
        proof {
            reveal_strlit("h ");
            reveal_strlit("m ");
            reveal_strlit("s");
        }
        out
    }
}

/// `H`h `M`m `S`s for a duration in milliseconds.
pub open spec fn formatted_duration(ms: int) -> Seq<char> {
    let total_s = ms / 1000;
    decimal_digits(total_s / 3600) + "h "@ + decimal_digits((total_s % 3600) / 60) + "m "@
        + decimal_digits(total_s % 60) + "s"@
}

/// Aggregated activity for one calendar day.
pub struct DailyStats {
    pub year: u32,
    pub month: u8,
    pub day: u8,
    pub recordings: u64,
    pub duration_ms: u64,
    pub characters_transcribed: u64,
}

pub open spec fn daily_sane(d: DailyStats) -> bool {
    &&& d.recordings <= 0x10000000000
    &&& d.duration_ms <= 0x10000000000
    &&& d.characters_transcribed <= 0x10000000000
    &&& 1 <= d.month <= 12
    &&& 1 <= d.day <= 31
}

/// A day as a single comparable number.
pub open spec fn day_key(d: DailyStats) -> int {
    d.year as int * 10000 + d.month as int * 100 + d.day as int
}

/// How many days of history the analytics keep.
pub const DAY_CAP: usize = 30;

/// Derived figures over the daily history.
pub struct AnalyticsData {
    /// Oldest day first, at most `DAY_CAP` days, strictly one entry per day.
    pub daily_stats: Vec<DailyStats>,
    /// Mean recordings per day over the last week of history, in
    /// thousandths of a recording.
    pub weekly_average_milli: u64,
    /// Recordings over the whole kept history.
    pub monthly_total: u64,
    /// The day with the most recordings, as its `day_key`, or zero with
    /// no history.
    pub most_active_day_key: u64,
}

pub open spec fn days_sorted(s: Seq<DailyStats>) -> bool {
    forall|i: int, j: int| 0 <= i < j < s.len() ==> day_key(#[trigger] s[i]) < day_key(
        #[trigger] s[j],
    )
}

pub open spec fn days_sane(s: Seq<DailyStats>) -> bool {
    forall|i: int| 0 <= i < s.len() ==> daily_sane(#[trigger] s[i])
}

pub open spec fn analytics_wf(a: AnalyticsData) -> bool {
    &&& a.daily_stats@.len() <= DAY_CAP as int
    &&& days_sorted(a.daily_stats@)
    &&& days_sane(a.daily_stats@)
}

/// Total recordings over a run of days.
pub open spec fn sum_recordings(s: Seq<DailyStats>) -> int
    decreases s.len(),
{
    if s.len() == 0 {
        0
    } else {
        sum_recordings(s.drop_last()) + s.last().recordings as int
    }
}

/// The largest recordings count over a run of days.
pub open spec fn max_recordings(s: Seq<DailyStats>) -> int
    decreases s.len(),
{
    if s.len() == 0 {
        0
    } else {
        let m = max_recordings(s.drop_last());
        if s.last().recordings as int >= m {
            s.last().recordings as int
        } else {
            m
        }
    }
}

proof fn lemma_sum_recordings_bound(s: Seq<DailyStats>)
    requires
        days_sane(s),
    ensures
        0 <= sum_recordings(s) <= s.len() * 0x10000000000,
    decreases s.len(),
{
    if s.len() > 0 {
        assert(days_sane(s.drop_last()));
        lemma_sum_recordings_bound(s.drop_last());
        assert((s.len() - 1) * 0x10000000000 + 0x10000000000 == s.len() * 0x10000000000) by {
            vstd::arithmetic::mul::lemma_mul_is_distributive_sub(
                0x10000000000,
                s.len() as int,
                1,
            );
            vstd::arithmetic::mul::lemma_mul_is_commutative(0x10000000000, s.len() as int);
            vstd::arithmetic::mul::lemma_mul_is_commutative(
                0x10000000000,
                s.len() as int - 1,
            );
        }
    }
}

/// The `day_key` of the most active day, ties going to the later day; zero
/// with no history.
pub open spec fn most_active_key(s: Seq<DailyStats>) -> int
    decreases s.len(),
{
    if s.len() == 0 {
        0
    } else if s.last().recordings as int >= max_recordings(s.drop_last()) {
        day_key(s.last())
    } else {
        most_active_key(s.drop_last())
    }
}

/// Mean recordings per day over the most recent seven kept days, in
/// thousandths.
pub open spec fn weekly_avg_milli(s: Seq<DailyStats>) -> int {
    if s.len() == 0 {
        0
    } else if s.len() >= 7 {
        (sum_recordings(s.skip(s.len() - 7)) * 1000) / 7
    } else {
        (sum_recordings(s) * 1000) / (s.len() as int)
    }
}

/// Within sane ranges, a `day_key` decomposes into exactly one day.
proof fn lemma_day_key_unique(d: DailyStats, y: int, m: int, dd: int)
    requires
        daily_sane(d),
        1 <= m <= 12,
        1 <= dd <= 31,
        0 <= y,
        day_key(d) == y * 10000 + m * 100 + dd,
    ensures
        d.year == y,
        d.month == m,
        d.day == dd,
{
}

/// The day's comparable number, as `day_key` states it.
fn day_key_of(d: &DailyStats) -> (k: u64)
    requires
        daily_sane(*d),
    ensures
        k == day_key(*d),
{
    d.year as u64 * 10000 + d.month as u64 * 100 + d.day as u64
}

impl AnalyticsData {
    /// No history yet.
    pub fn new() -> (a: AnalyticsData)
        ensures
            analytics_wf(a),
            a.daily_stats@.len() == 0,
            a.weekly_average_milli == 0,
            a.monthly_total == 0,
            a.most_active_day_key == 0,
    {
        AnalyticsData {
            daily_stats: Vec::new(),
            weekly_average_milli: 0,
            monthly_total: 0,
            most_active_day_key: 0,
        }
    }

    /// Fold one finished recording into the day `(year, month, day)`:
    /// that day's counters grow (the day is created if absent), at most
    /// the most recent `DAY_CAP` days are kept, and the derived figures
    /// are recomputed.
    pub fn update_with_recording(
        &mut self,
        duration_ms: u64,
        characters: usize,
        year: u32,
        month: u8,
        day: u8,
    )
        requires
            analytics_wf(*old(self)),
            duration_ms <= 0x1000000000,
            characters <= 0x1000000000,
            1 <= month <= 12,
            1 <= day <= 31,
            forall|i: int| 0 <= i < old(self).daily_stats@.len() ==> (#[trigger] old(
                self,
            ).daily_stats@[i]).recordings < 0x10000000000 && old(self).daily_stats@[i].duration_ms
                + duration_ms <= 0x10000000000 && old(self).daily_stats@[i].characters_transcribed
                + characters <= 0x10000000000,
        ensures
            analytics_wf(*final(self)),
            final(self).monthly_total == sum_recordings(final(self).daily_stats@),
            final(self).weekly_average_milli == weekly_avg_milli(final(self).daily_stats@),
            final(self).most_active_day_key == most_active_key(final(self).daily_stats@),
            final(self).daily_stats@.len() > 0,
            old(self).daily_stats@.len() < DAY_CAP as int ==> exists|i: int|
                0 <= i < final(self).daily_stats@.len() && ({
                    let d = #[trigger] final(self).daily_stats@[i];
                    d.year == year && d.month == month && d.day == day && d.recordings >= 1
                }),
    {
        let key: u64 = year as u64 * 10000 + month as u64 * 100 + day as u64;
        let n = self.daily_stats.len();
        let mut idx: usize = 0;
        while idx < n && key != day_key_of(&self.daily_stats[idx])
            invariant
                n == self.daily_stats@.len(),
                idx <= n,
                *self == *old(self),
                analytics_wf(*self),
                forall|i: int| 0 <= i < idx ==> day_key(#[trigger] self.daily_stats@[i])
                    != key,
            decreases n - idx,
        {
            idx += 1;
        }
        let found = idx < n;
        if found {
            let d = &self.daily_stats[idx];
            let updated = DailyStats {
                year: d.year,
                month: d.month,
                day: d.day,
                recordings: d.recordings + 1,
                duration_ms: d.duration_ms + duration_ms,
                characters_transcribed: d.characters_transcribed + characters as u64,
            };
            self.daily_stats.remove(idx);
            self.daily_stats.insert(idx, updated);
            proof {
                assert(days_sorted(self.daily_stats@)) by {
                    assert(forall|i: int| 0 <= i < self.daily_stats@.len() && i != idx
                        ==> #[trigger] self.daily_stats@[i] == old(self).daily_stats@[i]);
                    assert(day_key(self.daily_stats@[idx as int]) == day_key(
                        old(self).daily_stats@[idx as int],
                    ));
                }
                lemma_day_key_unique(
                    old(self).daily_stats@[idx as int],
                    year as int,
                    month as int,
                    day as int,
                );
                assert({
                    let d = self.daily_stats@[idx as int];
                    d.year == year && d.month == month && d.day == day && d.recordings >= 1
                });
            }
        } else {
            let fresh = DailyStats {
                year,
                month,
                day,
                recordings: 1,
                duration_ms,
                characters_transcribed: characters as u64,
            };
            let mut pos: usize = 0;
            while pos < n && day_key_of(&self.daily_stats[pos]) < key
                invariant
                    n == self.daily_stats@.len(),
                    pos <= n,
                    *self == *old(self),
                    analytics_wf(*self),
                    forall|i: int| 0 <= i < pos ==> day_key(#[trigger] self.daily_stats@[i])
                        < key,
                decreases n - pos,
            {
                pos += 1;
            }
            proof {
                assert(forall|i: int| 0 <= i < self.daily_stats@.len() ==> day_key(
                    #[trigger] self.daily_stats@[i],
                ) != key);
                if pos < n {
                    assert(day_key(self.daily_stats@[pos as int]) > key);
                }
            }
            self.daily_stats.insert(pos, fresh);
            proof {
                assert forall|i: int, j: int|
                    0 <= i < j < self.daily_stats@.len() implies day_key(
                    #[trigger] self.daily_stats@[i],
                ) < day_key(#[trigger] self.daily_stats@[j]) by {
                    if i < pos && j > pos {
                        assert(self.daily_stats@[i] == old(self).daily_stats@[i]);
                        assert(self.daily_stats@[j] == old(self).daily_stats@[j - 1]);
                    }
                }
            }
            proof {
                if old(self).daily_stats@.len() < DAY_CAP as int {
                    assert({
                        let d = self.daily_stats@[pos as int];
                        d.year == year && d.month == month && d.day == day && d.recordings
                            >= 1
                    });
                }
            }
            if self.daily_stats.len() > DAY_CAP {
                self.daily_stats.remove(0);
            }
        }
        self.recompute();
    }

    /// Recompute the derived figures from the daily history.
    fn recompute(&mut self)
        requires
            days_sane(old(self).daily_stats@),
            days_sorted(old(self).daily_stats@),
            old(self).daily_stats@.len() <= DAY_CAP as int,
        ensures
            analytics_wf(*final(self)),
            final(self).daily_stats == old(self).daily_stats,
            final(self).monthly_total == sum_recordings(final(self).daily_stats@),
            final(self).most_active_day_key == most_active_key(final(self).daily_stats@),
            final(self).weekly_average_milli == weekly_avg_milli(final(self).daily_stats@),
    {
        let n = self.daily_stats.len();
        let mut total: u64 = 0;
        let mut best: u64 = 0;
        let mut best_key: u64 = 0;
        let mut i: usize = 0;
        while i < n
            invariant
                n == self.daily_stats@.len(),
                n <= DAY_CAP as int,
                i <= n,
                self.daily_stats == old(self).daily_stats,
                days_sane(self.daily_stats@),
                total == sum_recordings(self.daily_stats@.take(i as int)),
                total <= i * 0x10000000000,
                best == max_recordings(self.daily_stats@.take(i as int)),
                best_key == most_active_key(self.daily_stats@.take(i as int)),
                best <= 0x10000000000,
            decreases n - i,
        {
            proof {
                assert(self.daily_stats@.take(i as int + 1).drop_last() =~= self
                    .daily_stats@.take(i as int));
                assert(self.daily_stats@.take(i as int + 1).last() == self.daily_stats@[
                    i as int
                ]);
                lemma_sum_recordings_bound(self.daily_stats@.take(i as int));
                assert((i as int) * 0x10000000000 + 0x10000000000 == (i as int + 1)
                    * 0x10000000000) by {
                    vstd::arithmetic::mul::lemma_mul_is_distributive_add(
                        0x10000000000,
                        i as int,
                        1,
                    );
                    vstd::arithmetic::mul::lemma_mul_is_commutative(0x10000000000, i as int);
                    vstd::arithmetic::mul::lemma_mul_is_commutative(
                        0x10000000000,
                        i as int + 1,
                    );
                }
            }
            let d = &self.daily_stats[i];
            total = total + d.recordings;
            if d.recordings >= best {
                best = d.recordings;
                best_key = day_key_of(d);
            }
            i += 1;
        }
        proof {
            assert(self.daily_stats@.take(n as int) =~= self.daily_stats@);
        }
        self.monthly_total = total;
        self.most_active_day_key = best_key;
        if n == 0 {
            self.weekly_average_milli = 0;
            return;
        }
        let week_days: usize = if n >= 7 {
            7
        } else {
            n
        };
        let start = n - week_days;
        let mut wtotal: u64 = 0;
        let mut j: usize = start;
        while j < n
            invariant
                n == self.daily_stats@.len(),
                n <= DAY_CAP as int,
                start == n - week_days,
                start <= j <= n,
                1 <= week_days <= n,
                self.daily_stats == old(self).daily_stats,
                days_sane(self.daily_stats@),
                wtotal == sum_recordings(self.daily_stats@.subrange(start as int, j as int)),
                wtotal <= (j - start) * 0x10000000000,
            decreases n - j,
        {
            proof {
                assert(self.daily_stats@.subrange(start as int, j as int + 1).drop_last()
                    =~= self.daily_stats@.subrange(start as int, j as int));
                assert(self.daily_stats@.subrange(start as int, j as int + 1).last() == self
                    .daily_stats@[j as int]);
                lemma_sum_recordings_bound(
                    self.daily_stats@.subrange(start as int, j as int),
                );
                assert(days_sane(self.daily_stats@.subrange(start as int, j as int)));
                assert(((j - start) as int) * 0x10000000000 + 0x10000000000 == ((j - start)
                    as int + 1) * 0x10000000000) by {
                    vstd::arithmetic::mul::lemma_mul_is_distributive_add(
                        0x10000000000,
                        (j - start) as int,
                        1,
                    );
                    vstd::arithmetic::mul::lemma_mul_is_commutative(
                        0x10000000000,
                        (j - start) as int,
                    );
                    vstd::arithmetic::mul::lemma_mul_is_commutative(
                        0x10000000000,
                        (j - start) as int + 1,
                    );
                }
            }
            let d = &self.daily_stats[j];
            wtotal = wtotal + d.recordings;
            j += 1;
        }
        proof {
            if week_days == 7 {
                assert(self.daily_stats@.subrange(start as int, n as int) =~= self
                    .daily_stats@.skip(n as int - 7));
            } else {
                assert(self.daily_stats@.subrange(start as int, n as int) =~= self
                    .daily_stats@);
            }
            vstd::arithmetic::div_mod::lemma_div_pos_is_pos(
                wtotal as int * 1000,
                week_days as int,
            );
            vstd::arithmetic::div_mod::lemma_div_is_ordered(
                wtotal as int * 1000,
                0x10000000000int * 7 * 1000,
                week_days as int,
            );
            vstd::arithmetic::div_mod::lemma_div_is_ordered_by_denominator(
                0x10000000000int * 7 * 1000,
                1,
                week_days as int,
            );
        }
        self.weekly_average_milli = (wtotal * 1000) / (week_days as u64);
    }
}

} // verus!
