//! Transcription history and usage statistics: the record types, the
//! list updates the dispatch layer applies, and the simple calendar
//! formula behind the daily buckets. Persistence itself is the
//! caller's business.

use vstd::prelude::*;

verus! {

/// Days of statistics that are kept.
pub const STATS_DAYS_KEPT: usize = 30;

/// One finished transcription, as kept in the history.
pub struct TranscriptionHistoryItem {
    pub original: String,
    pub polished: Option<String>,
    pub final_text: String,
    pub timestamp: u64,
    pub audio_data: Option<Vec<u8>>,
}

/// A remembered window position.
pub struct WindowPosition {
    pub x: i32,
    pub y: i32,
}

/// Usage counters of one calendar day. Durations are kept in
/// milliseconds.
pub struct DailyStats {
    pub date: String,
    pub transcription_count: u32,
    pub total_characters: u32,
    pub total_duration_ms: u64,
}

/// Overall usage counters with the per-day buckets of the last
/// [`STATS_DAYS_KEPT`] days.
pub struct UsageStats {
    pub total_transcriptions: u32,
    pub total_characters: u32,
    pub total_duration_ms: u64,
    pub daily_stats: Vec<DailyStats>,
}

impl UsageStats {
    /// Empty counters.
    pub fn new() -> (r: UsageStats)
        ensures
            r.total_transcriptions == 0,
            r.total_characters == 0,
            r.total_duration_ms == 0,
            r.daily_stats@ == Seq::<DailyStats>::empty(),
    {
        UsageStats {
            total_transcriptions: 0,
            total_characters: 0,
            total_duration_ms: 0,
            daily_stats: Vec::new(),
        }
    }
}

/// Puts a new history item in front of the existing ones.
pub fn push_history_front(
    history: &mut Vec<TranscriptionHistoryItem>,
    item: TranscriptionHistoryItem,
)
    requires
        old(history)@.len() < usize::MAX,
    ensures
        final(history)@ == old(history)@.insert(0, item),
{
    history.insert(0, item);
}

/// The index of the first daily bucket carrying `date`, or -1 where
/// none does.
pub open spec fn daily_index(ds: Seq<DailyStats>, date: Seq<char>) -> int
    decreases ds.len(),
{
    if ds.len() == 0 {
        -1
    } else if ds[0].date@ == date {
        0
    } else {
        let r = daily_index(ds.drop_first(), date);
        if r == -1 {
            -1
        } else {
            r + 1
        }
    }
}

proof fn lemma_daily_index_props(ds: Seq<DailyStats>, date: Seq<char>)
    ensures
        daily_index(ds, date) >= -1,
        daily_index(ds, date) == -1 ==> forall|k: int| 0 <= k < ds.len() ==> ds[k].date@ != date,
        daily_index(ds, date) >= 0 ==> 0 <= daily_index(ds, date) < ds.len() && ds[daily_index(
            ds,
            date,
        )].date@ == date && forall|k: int| 0 <= k < daily_index(ds, date) ==> ds[k].date@ != date,
    decreases ds.len(),
{
    if ds.len() > 0 && ds[0].date@ != date {
        let df = ds.drop_first();
        lemma_daily_index_props(df, date);
        assert(forall|k: int| 1 <= k < ds.len() ==> ds[k] == df[k - 1]);
        let r = daily_index(df, date);
        if r == -1 {
            assert forall|k: int| 0 <= k < ds.len() implies ds[k].date@ != date by {
                if k >= 1 {
                    assert(ds[k] == df[k - 1]);
                    assert(df[k - 1].date@ != date);
                }
            }
        } else {
            assert(ds[r + 1] == df[r]);
            assert forall|k: int| 0 <= k < r + 1 implies ds[k].date@ != date by {
                if k >= 1 {
                    assert(ds[k] == df[k - 1]);
                    assert(df[k - 1].date@ != date);
                }
            }
        }
    }
}

/// The daily buckets after an update on `date`: the first bucket of
/// that date counts one more transcription, `characters` more
/// characters and `duration_ms` more milliseconds; where no bucket has
/// the date, a fresh one is appended.
pub open spec fn updated_daily(
    ds: Seq<DailyStats>,
    date: Seq<char>,
    entry: DailyStats,
) -> Seq<DailyStats> {
    let i = daily_index(ds, date);
    if i >= 0 {
        ds.update(i, entry)
    } else {
        ds.push(entry)
    }
}

/// Applies one finished transcription of `characters` characters and
/// `duration_ms` milliseconds to the counters: the three totals grow,
/// today's bucket grows or is created, and only the most recent
/// [`STATS_DAYS_KEPT`] buckets survive.
pub fn apply_usage(stats: &mut UsageStats, characters: u32, duration_ms: u64, today: &String)
    requires
        old(stats).total_transcriptions < u32::MAX,
        old(stats).total_characters + characters <= u32::MAX,
        old(stats).total_duration_ms + duration_ms <= u64::MAX,
        forall|k: int|
            0 <= k < old(stats).daily_stats@.len() ==> (#[trigger] old(
                stats,
            ).daily_stats@[k]).transcription_count < u32::MAX && old(
                stats,
            ).daily_stats@[k].total_characters + characters <= u32::MAX && old(
                stats,
            ).daily_stats@[k].total_duration_ms + duration_ms <= u64::MAX,
        old(stats).daily_stats@.len() < usize::MAX,
    ensures
        final(stats).total_transcriptions == old(stats).total_transcriptions + 1,
        final(stats).total_characters == old(stats).total_characters + characters,
        final(stats).total_duration_ms == old(stats).total_duration_ms + duration_ms,
        ({
            let ds = old(stats).daily_stats@;
            let i = daily_index(ds, today@);
            let entry = if i >= 0 {
                DailyStats {
                    date: ds[i].date,
                    transcription_count: (ds[i].transcription_count + 1) as u32,
                    total_characters: (ds[i].total_characters + characters) as u32,
                    total_duration_ms: (ds[i].total_duration_ms + duration_ms) as u64,
                }
            } else {
                DailyStats {
                    date: *today,
                    transcription_count: 1,
                    total_characters: characters,
                    total_duration_ms: duration_ms,
                }
            };
            let grown = updated_daily(ds, today@, entry);
            final(stats).daily_stats@ == if grown.len() > STATS_DAYS_KEPT {
                grown.subrange(grown.len() - STATS_DAYS_KEPT, grown.len() as int)
            } else {
                grown
            }
        }),
{
    stats.total_transcriptions = stats.total_transcriptions + 1;
    stats.total_characters = stats.total_characters + characters;
    stats.total_duration_ms = stats.total_duration_ms + duration_ms;
    let ghost ds = stats.daily_stats@;
    proof {
        lemma_daily_index_props(ds, today@);
    }
    let n = stats.daily_stats.len();
    let mut i: usize = 0;
    let mut found = false;
    while i < n && !found
        invariant
            0 <= i <= n,
            n == stats.daily_stats@.len(),
            ds == stats.daily_stats@,
            !found ==> forall|k: int| 0 <= k < i ==> ds[k].date@ != today@,
            found ==> i < n && ds[i as int].date@ == today@ && daily_index(ds, today@) == i,
        decreases n - i + if found {
            0int
        } else {
            1int
        },
    {
        if stats.daily_stats[i].date == *today {
            found = true;
            proof {
                lemma_daily_index_props(ds, today@);
                lemma_daily_index_first(ds, today@, i as int);
            }
        } else {
            i = i + 1;
        }
    }
    if found {
        let old_entry = stats.daily_stats.remove(i);
        let entry = DailyStats {
            date: old_entry.date,
            transcription_count: old_entry.transcription_count + 1,
            total_characters: old_entry.total_characters + characters,
            total_duration_ms: old_entry.total_duration_ms + duration_ms,
        };
        stats.daily_stats.insert(i, entry);
        proof {
            assert(stats.daily_stats@ =~= updated_daily(
                ds,
                today@,
                DailyStats {
                    date: ds[i as int].date,
                    transcription_count: (ds[i as int].transcription_count + 1) as u32,
                    total_characters: (ds[i as int].total_characters + characters) as u32,
                    total_duration_ms: (ds[i as int].total_duration_ms + duration_ms) as u64,
                },
            ));
        }
    } else {
        proof {
            lemma_daily_index_props(ds, today@);
            if daily_index(ds, today@) >= 0 {
                assert(ds[daily_index(ds, today@)].date@ == today@);
                assert(false);
            }
        }
        let entry = DailyStats {
            date: today.clone(),
            transcription_count: 1,
            total_characters: characters,
            total_duration_ms: duration_ms,
        };
        stats.daily_stats.push(entry);
    }
    let ghost grown = stats.daily_stats@;
    let ghost totals = (
        stats.total_transcriptions,
        stats.total_characters,
        stats.total_duration_ms,
    );
    proof {
        assert(stats.daily_stats@ =~= grown.subrange(0, grown.len() as int));
    }
    while stats.daily_stats.len() > STATS_DAYS_KEPT
        invariant
            stats.daily_stats@.len() <= grown.len(),
            stats.daily_stats@ == grown.subrange(
                grown.len() - stats.daily_stats@.len(),
                grown.len() as int,
            ),
            stats.total_transcriptions == totals.0,
            stats.total_characters == totals.1,
            stats.total_duration_ms == totals.2,
            stats.daily_stats@.len() >= STATS_DAYS_KEPT || stats.daily_stats@.len()
                == grown.len(),
        decreases stats.daily_stats@.len(),
    {
        stats.daily_stats.remove(0);
        proof {
            assert(stats.daily_stats@ =~= grown.subrange(
                grown.len() - stats.daily_stats@.len(),
                grown.len() as int,
            ));
        }
    }
    proof {
        if grown.len() <= STATS_DAYS_KEPT {
            assert(stats.daily_stats@ =~= grown);
        }
    }
}

proof fn lemma_daily_index_first(ds: Seq<DailyStats>, date: Seq<char>, i: int)
    requires
        0 <= i < ds.len(),
        ds[i].date@ == date,
        forall|k: int| 0 <= k < i ==> ds[k].date@ != date,
    ensures
        daily_index(ds, date) == i,
    decreases ds.len(),
{
    if ds[0].date@ == date {
        assert(i == 0);
    } else {
        assert(forall|k: int|
            1 <= k < ds.len() ==> ds[k] == ds.drop_first()[k - 1]);
        lemma_daily_index_first(ds.drop_first(), date, i - 1);
    }
}

/// The decimal digits of a number, most significant first.
pub open spec fn dec_digits(n: nat) -> Seq<char>
    decreases n,
{
    if n < 10 {
        seq![digit_char(n)]
    } else {
        dec_digits(n / 10) + seq![digit_char(n % 10)]
    }
}

/// The character of one decimal digit.
pub open spec fn digit_char(d: nat) -> char {
    if d == 0 {
        '0'
    } else if d == 1 {
        '1'
    } else if d == 2 {
        '2'
    } else if d == 3 {
        '3'
    } else if d == 4 {
        '4'
    } else if d == 5 {
        '5'
    } else if d == 6 {
        '6'
    } else if d == 7 {
        '7'
    } else if d == 8 {
        '8'
    } else {
        '9'
    }
}

/// A number below 100 as exactly two digits.
pub open spec fn two_digits(n: nat) -> Seq<char> {
    seq![digit_char(n / 10 % 10), digit_char(n % 10)]
}

/// The date text for a Unix timestamp, by the deliberately simple
/// calendar of the statistics buckets: 365-day years from 1970,
/// 30-day months, month and day clamped to 12 and 31. It serves only
/// to group statistics by day, not as a true calendar.
pub open spec fn date_chars(secs: nat) -> Seq<char> {
    let days = secs / 86400;
    let year = 1970 + days / 365;
    let day_of_year = days % 365;
    let month = if day_of_year / 30 + 1 < 12 {
        day_of_year / 30 + 1
    } else {
        12
    };
    let day = if day_of_year % 30 + 1 < 31 {
        day_of_year % 30 + 1
    } else {
        31
    };
    dec_digits(year) + seq!['-'] + two_digits(month) + seq!['-'] + two_digits(day)
}

fn digit_str(d: u64) -> (r: &'static str)
    requires
        d < 10,
    ensures
        r@ == seq![digit_char(d as nat)],
{
    let s = match d {
        0 => "0",
        1 => "1",
        2 => "2",
        3 => "3",
        4 => "4",
        5 => "5",
        6 => "6",
        7 => "7",
        8 => "8",
        _ => "9",
    };
    proof {
        reveal_strlit("0");
        reveal_strlit("1");
        reveal_strlit("2");
        reveal_strlit("3");
        reveal_strlit("4");
        reveal_strlit("5");
        reveal_strlit("6");
        reveal_strlit("7");
        reveal_strlit("8");
        reveal_strlit("9");
        assert(s@ =~= seq![digit_char(d as nat)]);
    }
    s
}

/// A number as decimal text.
fn u64_to_dec(n: u64) -> (r: String)
    ensures
        r@ == dec_digits(n as nat),
    decreases n,
{
    if n < 10 {
        digit_str(n).to_owned()
    } else {
        let prefix = u64_to_dec(n / 10);
        let r = prefix.concat(digit_str(n % 10));
        proof {
            assert(r@ =~= dec_digits(n as nat));
        }
        r
    }
}

fn push_two_digits(out: String, n: u64) -> (r: String)
    requires
        n < 100,
    ensures
        r@ == out@ + two_digits(n as nat),
{
    let ghost base = out@;
    let r = out.concat(digit_str(n / 10 % 10)).concat(digit_str(n % 10));
    proof {
        assert(r@ =~= base + two_digits(n as nat));
    }
    r
}

/// The date text for a Unix timestamp, in `YYYY-MM-DD` shape.
pub fn date_string(secs: u64) -> (r: String)
    ensures
        r@ == date_chars(secs as nat),
{
    let days = secs / 86400;
    let year = 1970 + days / 365;
    let day_of_year = days % 365;
    let month0 = day_of_year / 30 + 1;
    let month = if month0 < 12 {
        month0
    } else {
        12
    };
    let day0 = day_of_year % 30 + 1;
    let day = if day0 < 31 {
        day0
    } else {
        31
    };
    let mut out = u64_to_dec(year);
    out = out.concat("-");
    out = push_two_digits(out, month);
    out = out.concat("-");
    out = push_two_digits(out, day);
    proof {
        reveal_strlit("-");
        assert("-"@ =~= seq!['-']);
        assert(out@ =~= date_chars(secs as nat));
    }
    out
}

/// Today's date text, from the system clock; the epoch's own date
/// stands in where the clock cannot tell the time.
pub fn get_today_date() -> (r: String)
    ensures
        exists|secs: nat| r@ == date_chars(secs),
{
    let secs: u64 = match crate::codec::unix_time_nanos() {
        Some(n) => ((n / 1000000000) % 18446744073709551616) as u64,
        None => 0,
    };
    let r = date_string(secs);
    proof {
        assert(r@ == date_chars(secs as nat));
    }
    r
}

} // verus!
