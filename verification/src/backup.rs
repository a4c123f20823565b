//! Automatic database backups: naming backup files, recognising them again,
//! and deciding which old backups to delete.
//!
//! Backups younger than a day are always kept. Of the older ones, walking
//! from newest to oldest, up to seven are kept a day apart, then up to four a
//! week apart, then up to twelve about a month apart, and after that one
//! about every year. The newest backup is always kept.

use vstd::prelude::*;
use vstd::string::*;

verus! {

/// A point in time in UTC that chrono can represent: seconds since the
/// Unix epoch, and nanoseconds into that second (above a billion during a
/// leap second). Times are read from backup names or from the clock.
#[derive(Clone, Copy, Debug, PartialEq, Eq, Structural)]
pub struct BackupTime {
    secs: i64,
    nanos: u32,
}

/// The earliest second chrono represents: the start of January 1 of year
/// -262143, its first date. chrono 0.4.45 reads
/// `-262143-01-01T00:00:00+0000` as this second, and `from_timestamp`
/// refuses every second before it.
pub open spec fn chrono_min_secs() -> int {
    -8334601228800
}

/// The last second chrono represents: the end of December 31 of year
/// 262142, its last date.
pub open spec fn chrono_max_secs() -> int {
    8210266876799
}

/// Whether `chrono::DateTime::from_timestamp` accepts these seconds and
/// nanoseconds: the day falls within chrono's dates, and the nanoseconds
/// are below a billion, or below two billion in the last second of a
/// minute (a leap second).
pub open spec fn chrono_representable(secs: i64, nanos: u32) -> bool {
    &&& chrono_min_secs() <= secs <= chrono_max_secs()
    &&& nanos < 2_000_000_000
    &&& (nanos < 1_000_000_000 || secs % 60 == 59)
}

impl BackupTime {
    #[verifier::type_invariant]
    spec fn representable(self) -> bool {
        chrono_representable(self.secs, self.nanos)
    }

    /// Seconds since the Unix epoch.
    pub closed spec fn secs_of(self) -> i64 {
        self.secs
    }

    /// Nanoseconds into the second.
    pub closed spec fn nanos_of(self) -> u32 {
        self.nanos
    }

    /// Seconds since the Unix epoch.
    pub fn secs(&self) -> (r: i64)
        ensures
            r == self.secs_of(),
    {
        self.secs
    }

    /// Nanoseconds into the second.
    pub fn nanos(&self) -> (r: u32)
        ensures
            r == self.nanos_of(),
    {
        self.nanos
    }
}

/// A backup file: its name and the time encoded in that name.
#[derive(Clone, Debug)]
pub struct BackupFile {
    pub name: String,
    pub time: BackupTime,
}

/// `a` comes strictly after `b`.
pub open spec fn later(a: BackupTime, b: BackupTime) -> bool {
    a.secs_of() > b.secs_of() || (a.secs_of() == b.secs_of() && a.nanos_of() > b.nanos_of())
}

pub open spec fn nanos_per_sec() -> int {
    1_000_000_000
}

/// The leap second that chrono's `a - b` counts beyond the plain
/// difference: the times' seconds into their days are compared, and a
/// leap second (nanoseconds of a billion or more) of the earlier one adds a
/// second, one of the later one takes a second away.
pub open spec fn leap_adjustment(a_secs: i64, a_nanos: u32, b_secs: i64, b_nanos: u32) -> int {
    let sa = a_secs % 86400;
    let sb = b_secs % 86400;
    if sa > sb && b_nanos >= nanos_per_sec() {
        1
    } else if sa < sb && a_nanos >= nanos_per_sec() {
        -1
    } else {
        0
    }
}

/// The signed time from `b` to `a`, in nanoseconds, as chrono's `a - b`
/// measures it: the difference of the seconds, with the leap adjustment,
/// and of the nanoseconds.
pub open spec fn nanos_between(a: BackupTime, b: BackupTime) -> int {
    (a.secs_of() - b.secs_of() + leap_adjustment(a.secs_of(), a.nanos_of(), b.secs_of(), b.nanos_of()))
        * nanos_per_sec() + a.nanos_of() - b.nanos_of()
}

pub open spec fn minute_nanos() -> int {
    60 * nanos_per_sec()
}

pub open spec fn day_nanos() -> int {
    86400 * nanos_per_sec()
}

/// Subtracts two times with chrono: `DateTime::from_timestamp` for each,
/// then `a - b`, read as `num_seconds` and `subsec_nanos`.
///
/// Trusted: as chrono's source shows (`NaiveDate` and `NaiveTime`
/// `signed_duration_since`, and the `TimeDelta` accessors), the
/// difference is `nanos_between(a, b)`, split into whole seconds and the
/// nanoseconds beyond them, both with the sign of the difference. Both
/// times are within chrono's range, so `from_timestamp` gives them.
#[verifier::external_body]
fn time_difference(a: BackupTime, b: BackupTime) -> (r: (i64, i32))
    requires
        chrono_representable(a.secs_of(), a.nanos_of()),
        chrono_representable(b.secs_of(), b.nanos_of()),
    ensures
        r.0 * nanos_per_sec() + r.1 == nanos_between(a, b),
        (r.0 >= 0 && 0 <= r.1 < nanos_per_sec()) || (r.0 <= 0 && -nanos_per_sec() < r.1 <= 0),
{
    let x = chrono::DateTime::from_timestamp(a.secs, a.nanos).unwrap();
    let y = chrono::DateTime::from_timestamp(b.secs, b.nanos).unwrap();
    let d = x - y;
    (d.num_seconds(), d.subsec_nanos())
}

/// The time from `b` to `a`, in nanoseconds.
pub fn nanos_between_exec(a: BackupTime, b: BackupTime) -> (r: i128)
    ensures
        r == nanos_between(a, b),
{
    proof {
        use_type_invariant(&a);
        use_type_invariant(&b);
    }
    let (secs, nanos) = time_difference(a, b);
    secs as i128 * 1_000_000_000 + nanos as i128
}

/// The retention thresholds, in nanoseconds: a day less a minute, a week
/// less ten minutes, thirty days less thirty minutes, and 364 days.
pub open spec fn daily_gap() -> int {
    day_nanos() - minute_nanos()
}

pub open spec fn weekly_gap() -> int {
    7 * day_nanos() - 10 * minute_nanos()
}

pub open spec fn monthly_gap() -> int {
    30 * day_nanos() - 30 * minute_nanos()
}

pub open spec fn yearly_gap() -> int {
    364 * day_nanos()
}

/// What the walk from newest to oldest backup remembers: the last backup
/// kept, and how many daily, weekly and monthly backups were kept so far.
pub struct Retention {
    pub last: BackupTime,
    pub daily: int,
    pub weekly: int,
    pub monthly: int,
}

/// One step of the walk: whether backup `t` is deleted, and the new state.
pub open spec fn retention_step(st: Retention, t: BackupTime, now: BackupTime) -> (Retention, bool) {
    if nanos_between(now, t) < day_nanos() {
        (st, false)
    } else {
        let gap = nanos_between(st.last, t);
        if st.daily < 7 {
            if gap < daily_gap() {
                (st, true)
            } else {
                (Retention { last: t, daily: st.daily + 1, ..st }, false)
            }
        } else if st.weekly < 4 {
            if gap < weekly_gap() {
                (st, true)
            } else {
                (Retention { last: t, weekly: st.weekly + 1, ..st }, false)
            }
        } else if st.monthly < 12 {
            if gap < monthly_gap() {
                (st, true)
            } else {
                (Retention { last: t, monthly: st.monthly + 1, ..st }, false)
            }
        } else if gap < yearly_gap() {
            (st, true)
        } else {
            (Retention { last: t, ..st }, false)
        }
    }
}

/// Deletion decisions for `times[k..]`, walking with state `st`.
pub open spec fn deletions_from(times: Seq<BackupTime>, k: int, st: Retention, now: BackupTime) -> Seq<bool>
    decreases times.len() - k,
{
    if k < 0 || k >= times.len() {
        Seq::empty()
    } else {
        let (next, delete) = retention_step(st, times[k], now);
        seq![delete] + deletions_from(times, k + 1, next, now)
    }
}

/// Which of `times` (newest first) are deleted when cleaning at `now`.
pub open spec fn deletions(times: Seq<BackupTime>, now: BackupTime) -> Seq<bool> {
    if times.len() <= 1 {
        Seq::new(times.len(), |k: int| false)
    } else {
        seq![false] + deletions_from(
            times,
            1,
            Retention { last: times[0], daily: 0, weekly: 0, monthly: 0 },
            now,
        )
    }
}

/// The times of a list of backups.
pub open spec fn times_of(files: Seq<BackupFile>) -> Seq<BackupTime> {
    files.map_values(|f: BackupFile| f.time)
}

/// Backups ordered from newest to oldest.
pub open spec fn newest_first(files: Seq<BackupFile>) -> bool {
    forall|i: int, j: int| 0 <= i < j < files.len() ==> !later(#[trigger] files[j].time, #[trigger] files[i].time)
}

fn is_later(a: BackupTime, b: BackupTime) -> (r: bool)
    ensures
        r == later(a, b),
{
    a.secs > b.secs || (a.secs == b.secs && a.nanos > b.nanos)
}

/// Decides, for backups ordered newest first, which are deleted when
/// cleaning at `now`.
pub fn plan_deletions(sorted: &Vec<BackupFile>, now: BackupTime) -> (r: Vec<bool>)
    ensures
        r@ == deletions(times_of(sorted@), now),
{
    let ghost times = times_of(sorted@);
    let n = sorted.len();
    let mut out: Vec<bool> = Vec::new();
    if n <= 1 {
        let mut k: usize = 0;
        while k < n
            invariant
                k <= n,
                n == sorted.len(),
                out@ == Seq::new(k as nat, |i: int| false),
            decreases n - k,
        {
            out.push(false);
            k = k + 1;
        }
        assert(out@ =~= deletions(times, now));
        return out;
    }
    out.push(false);
    let mut last = sorted[0].time;
    let mut daily: u8 = 0;
    let mut weekly: u8 = 0;
    let mut monthly: u8 = 0;
    let mut k: usize = 1;
    assert(deletions(times, now) == seq![false] + deletions_from(
        times,
        1,
        Retention { last: times[0], daily: 0, weekly: 0, monthly: 0 },
        now,
    ));
    while k < n
        invariant
            1 <= k <= n,
            n == sorted.len(),
            times == times_of(sorted@),
            daily <= 7,
            weekly <= 4,
            monthly <= 12,
            out@ + deletions_from(
                times,
                k as int,
                Retention {
                    last: last,
                    daily: daily as int,
                    weekly: weekly as int,
                    monthly: monthly as int,
                },
                now,
            ) == deletions(times, now),
        decreases n - k,
    {
        let t = sorted[k].time;
        let ghost st = Retention {
            last: last,
            daily: daily as int,
            weekly: weekly as int,
            monthly: monthly as int,
        };
        let ghost step = retention_step(st, t, now);
        let mut delete = false;
        if nanos_between_exec(now, t) < 86400 * 1_000_000_000 {
        } else {
            let gap = nanos_between_exec(last, t);
            if daily < 7 {
                if gap < (86400 - 60) * 1_000_000_000 {
                    delete = true;
                } else {
                    last = t;
                    daily = daily + 1;
                }
            } else if weekly < 4 {
                if gap < (7 * 86400 - 600) * 1_000_000_000 {
                    delete = true;
                } else {
                    last = t;
                    weekly = weekly + 1;
                }
            } else if monthly < 12 {
                if gap < (30 * 86400 - 1800) * 1_000_000_000 {
                    delete = true;
                } else {
                    last = t;
                    monthly = monthly + 1;
                }
            } else if gap < 364 * 86400 * 1_000_000_000 {
                delete = true;
            } else {
                last = t;
            }
        }
        assert(step.1 == delete);
        assert(step.0 == Retention {
            last: last,
            daily: daily as int,
            weekly: weekly as int,
            monthly: monthly as int,
        });
        let ghost old_out = out@;
        out.push(delete);
        assert(out@ + deletions_from(times, k + 1, step.0, now) =~= old_out + deletions_from(
            times,
            k as int,
            st,
            now,
        ));
        k = k + 1;
    }
    assert(out@ + deletions_from(
        times,
        k as int,
        Retention { last: last, daily: daily as int, weekly: weekly as int, monthly: monthly as int },
        now,
    ) =~= out@);
    out
}


/// Inserts `file` into `sorted` after every backup at least as new.
fn insert_newest_first(sorted: &mut Vec<BackupFile>, file: BackupFile)
    requires
        newest_first(old(sorted)@),
    ensures
        newest_first(final(sorted)@),
        final(sorted)@.to_multiset() == old(sorted)@.to_multiset().insert(file),
{
    let mut p: usize = 0;
    while p < sorted.len() && !is_later(file.time, sorted[p].time)
        invariant
            p <= sorted.len(),
            forall|j: int| 0 <= j < p ==> !later(file.time, #[trigger] sorted@[j].time),
        decreases sorted.len() - p,
    {
        p = p + 1;
    }
    let ghost before = sorted@;
    sorted.insert(p, file);
    proof {
        let after = sorted@;
        assert forall|i: int, j: int| 0 <= i < j < after.len() implies !later(
            #[trigger] after[j].time,
            #[trigger] after[i].time,
        ) by {
            if j < p {
                assert(after[j] == before[j]);
                assert(after[i] == before[i]);
            } else if j == p {
                assert(after[i] == before[i]);
            } else {
                assert(after[j] == before[j - 1]);
                if i < p {
                    assert(after[i] == before[i]);
                } else if i == p {
                    assert(later(file.time, before[p as int].time));
                    if j - 1 > p {
                        assert(!later(before[j - 1].time, before[p as int].time));
                    }
                } else {
                    assert(after[i] == before[i - 1]);
                }
            }
        }
        broadcast use vstd::seq_lib::group_to_multiset_ensures;
        assert(after.remove(p as int) =~= before);
        assert(after[p as int] == file);
        assert(after.contains(file));
        assert(after.to_multiset() =~= before.to_multiset().insert(file));
    }
}

/// Orders backups from newest to oldest, keeping the given order among
/// backups with equal times.
pub fn sort_newest_first(files: Vec<BackupFile>) -> (r: Vec<BackupFile>)
    ensures
        newest_first(r@),
        r@.to_multiset() == files@.to_multiset(),
{
    let ghost original = files@;
    let mut rest = files;
    let mut sorted: Vec<BackupFile> = Vec::new();
    proof {
        broadcast use vstd::seq_lib::group_to_multiset_ensures;
        assert(sorted@.to_multiset().add(rest@.to_multiset()) =~= original.to_multiset());
    }
    while rest.len() > 0
        invariant
            newest_first(sorted@),
            sorted@.to_multiset().add(rest@.to_multiset()) == original.to_multiset(),
        decreases rest.len(),
    {
        let ghost before_sorted = sorted@;
        let ghost before_rest = rest@;
        let file = rest.remove(0);
        insert_newest_first(&mut sorted, file);
        proof {
            broadcast use vstd::seq_lib::group_to_multiset_ensures;
            assert(before_rest.to_multiset().count(file) > 0);
            assert(sorted@.to_multiset().add(rest@.to_multiset()) =~= before_sorted.to_multiset().add(
                before_rest.to_multiset(),
            ));
        }
    }
    proof {
        broadcast use vstd::seq_lib::group_to_multiset_ensures;
        assert(sorted@.to_multiset().add(rest@.to_multiset()) =~= sorted@.to_multiset());
    }
    sorted
}

/// Orders backups newest first and decides which of them to delete when
/// cleaning at `now`: the second vector flags, position by position, the
/// backups of the first that are deleted.
pub fn plan_cleanup(files: Vec<BackupFile>, now: BackupTime) -> (r: (Vec<BackupFile>, Vec<bool>))
    ensures
        newest_first(r.0@),
        r.0@.to_multiset() == files@.to_multiset(),
        r.1@ == deletions(times_of(r.0@), now),
{
    let sorted = sort_newest_first(files);
    let flags = plan_deletions(&sorted, now);
    (sorted, flags)
}

/// The walk decides once for each backup.
pub proof fn lemma_deletions_from_len(times: Seq<BackupTime>, k: int, st: Retention, now: BackupTime)
    requires
        0 <= k <= times.len(),
    ensures
        deletions_from(times, k, st, now).len() == times.len() - k,
    decreases times.len() - k,
{
    if k < times.len() {
        let (next, d) = retention_step(st, times[k], now);
        lemma_deletions_from_len(times, k + 1, next, now);
    }
}

/// Cleaning decides once for each backup, never deletes the newest one,
/// and never deletes one made less than a day before `now`.
pub proof fn lemma_cleaning_keeps_newest_and_recent(times: Seq<BackupTime>, now: BackupTime)
    ensures
        deletions(times, now).len() == times.len(),
        times.len() > 0 ==> !deletions(times, now)[0],
        forall|k: int|
            0 <= k < times.len() && nanos_between(now, times[k]) < day_nanos()
                ==> !#[trigger] deletions(times, now)[k],
{
    if times.len() > 1 {
        let st = Retention { last: times[0], daily: 0, weekly: 0, monthly: 0 };
        lemma_deletions_from_len(times, 1, st, now);
        assert forall|k: int|
            1 <= k < times.len() && nanos_between(now, times[k]) < day_nanos() implies !deletions_from(
            times,
            1,
            st,
            now,
        )[k - 1] by {
            lemma_recent_kept(times, 1, st, now, k);
        }
        assert forall|k: int|
            0 <= k < times.len() && nanos_between(now, times[k]) < day_nanos() implies !#[trigger] deletions(
            times,
            now,
        )[k] by {
            if k > 0 {
                assert(deletions(times, now)[k] == deletions_from(times, 1, st, now)[k - 1]);
            }
        }
    }
}

proof fn lemma_recent_kept(times: Seq<BackupTime>, j: int, st: Retention, now: BackupTime, k: int)
    requires
        1 <= j <= k < times.len(),
        nanos_between(now, times[k]) < day_nanos(),
    ensures
        !deletions_from(times, j, st, now)[k - j],
    decreases k - j,
{
    let (next, d) = retention_step(st, times[j], now);
    lemma_deletions_from_len(times, j + 1, next, now);
    assert(deletions_from(times, j, st, now) == seq![d] + deletions_from(times, j + 1, next, now));
    if j < k {
        lemma_recent_kept(times, j + 1, next, now, k);
    }
}

/// Every backup that cleaning keeps and that is older than a day lies at
/// least a day less a minute before some newer backup that is also kept.
pub proof fn lemma_kept_backups_are_spaced(times: Seq<BackupTime>, now: BackupTime, k: int)
    requires
        1 <= k < times.len(),
        !deletions(times, now)[k],
        nanos_between(now, times[k]) >= day_nanos(),
    ensures
        exists|j: int|
            0 <= j < k && !#[trigger] deletions(times, now)[j] && nanos_between(times[j], times[k])
                >= daily_gap(),
{
    let st = Retention { last: times[0], daily: 0, weekly: 0, monthly: 0 };
    lemma_deletions_from_len(times, 1, st, now);
    assert forall|m: int| 1 <= m < times.len() implies #[trigger] deletions_from(times, 1, st, now)[m
        - 1] == deletions(times, now)[m] by {}
    let j = lemma_spacing_walk(times, 1, st, 0, now, k);
    assert(!deletions(times, now)[j]);
}

/// Walking from index `i`, the state's last kept backup is a kept backup
/// at an earlier index, and a kept old backup `k` lies at least the daily
/// gap after the last kept backup when the walk reaches it.
proof fn lemma_spacing_walk(
    times: Seq<BackupTime>,
    i: int,
    st: Retention,
    last_index: int,
    now: BackupTime,
    k: int,
) -> (j: int)
    requires
        1 <= i <= k < times.len(),
        0 <= last_index < i,
        st.last == times[last_index],
        !deletions(times, now)[last_index],
        deletions(times, now).len() == times.len(),
        forall|m: int| i <= m < times.len() ==> #[trigger] deletions_from(times, i, st, now)[m - i]
            == deletions(times, now)[m],
        !deletions(times, now)[k],
        nanos_between(now, times[k]) >= day_nanos(),
    ensures
        0 <= j < k,
        !deletions(times, now)[j],
        nanos_between(times[j], times[k]) >= daily_gap(),
    decreases k - i,
{
    let (next, d) = retention_step(st, times[i], now);
    lemma_deletions_from_len(times, i + 1, next, now);
    assert(deletions_from(times, i, st, now) == seq![d] + deletions_from(times, i + 1, next, now));
    assert(deletions_from(times, i, st, now)[i - i] == deletions(times, now)[i]);
    if i == k {
        last_index
    } else {
        assert forall|m: int| i + 1 <= m < times.len() implies #[trigger] deletions_from(
            times,
            i + 1,
            next,
            now,
        )[m - (i + 1)] == deletions(times, now)[m] by {
            assert(deletions_from(times, i, st, now)[m - i] == deletions(times, now)[m]);
        }
        if next.last == st.last {
            lemma_spacing_walk(times, i + 1, next, last_index, now, k)
        } else {
            lemma_spacing_walk(times, i + 1, next, i, now, k)
        }
    }
}

/// Backup `m` is one that later backups are spaced from: it is kept, and
/// it is the newest backup or one made at least a day before `now`.
pub open spec fn anchored(times: Seq<BackupTime>, now: BackupTime, m: int) -> bool {
    &&& 0 <= m < times.len()
    &&& !deletions(times, now)[m]
    &&& (m == 0 || nanos_between(now, times[m]) >= day_nanos())
}

/// How many backups after the newest, up to and including `k`, are kept
/// and at least a day old.
pub open spec fn kept_old_count(times: Seq<BackupTime>, now: BackupTime, k: int) -> int
    decreases k,
{
    if k <= 0 {
        0
    } else {
        kept_old_count(times, now, k - 1) + if anchored(times, now, k) {
            1int
        } else {
            0int
        }
    }
}

/// The least gap before the `r`-th kept backup older than a day, from the
/// kept backup before it: a day less a minute for the 7 daily ones, a week
/// less ten minutes for the next 4 weekly ones, thirty days less thirty
/// minutes for the next 12 monthly ones, and 364 days for the yearly ones
/// after them.
pub open spec fn tier_gap(r: int) -> int {
    if r <= 7 {
        daily_gap()
    } else if r <= 11 {
        weekly_gap()
    } else if r <= 23 {
        monthly_gap()
    } else {
        yearly_gap()
    }
}

spec fn daily_of(c: int) -> int {
    if c < 7 {
        c
    } else {
        7
    }
}

spec fn weekly_of(c: int) -> int {
    if c < 7 {
        0
    } else if c < 11 {
        c - 7
    } else {
        4
    }
}

spec fn monthly_of(c: int) -> int {
    if c < 11 {
        0
    } else if c < 23 {
        c - 11
    } else {
        12
    }
}

/// The walk's state at backup `i` holds the last anchor `a` and the counts
/// of the kept old backups before `i`; from there, a kept old backup `k`
/// lies at least its tier's gap after the anchor `j` before it, and a
/// deleted backup `k` is old and lies less than the next tier's gap after
/// it.
proof fn lemma_tier_walk(
    times: Seq<BackupTime>,
    now: BackupTime,
    i: int,
    st: Retention,
    a: int,
    j: int,
    k: int,
)
    requires
        times.len() > 1,
        1 <= i <= k < times.len(),
        0 <= a <= j < k,
        a < i,
        anchored(times, now, a),
        forall|m: int| a < m < i ==> !anchored(times, now, m),
        st.last == times[a],
        st.daily == daily_of(kept_old_count(times, now, i - 1)),
        st.weekly == weekly_of(kept_old_count(times, now, i - 1)),
        st.monthly == monthly_of(kept_old_count(times, now, i - 1)),
        forall|m: int| i <= m < times.len() ==> #[trigger] deletions_from(times, i, st, now)[m - i]
            == deletions(times, now)[m],
        anchored(times, now, j),
        forall|m: int| j < m < k ==> !anchored(times, now, m),
    ensures
        anchored(times, now, k) ==> nanos_between(times[j], times[k]) >= tier_gap(
            kept_old_count(times, now, k),
        ),
        deletions(times, now)[k] ==> nanos_between(now, times[k]) >= day_nanos() && nanos_between(
            times[j],
            times[k],
        ) < tier_gap(kept_old_count(times, now, k) + 1),
    decreases k - i,
{
    let c = kept_old_count(times, now, i - 1);
    let (next, d) = retention_step(st, times[i], now);
    lemma_deletions_from_len(times, i + 1, next, now);
    assert(deletions_from(times, i, st, now) == seq![d] + deletions_from(times, i + 1, next, now));
    assert(deletions_from(times, i, st, now)[i - i] == deletions(times, now)[i]);
    assert(d == deletions(times, now)[i]);
    assert(kept_old_count(times, now, i) == c + if anchored(times, now, i) {
        1int
    } else {
        0int
    });
    if i == k {
        if j != a {
            assert(!anchored(times, now, j));
        }
    } else {
        assert forall|m: int| i + 1 <= m < times.len() implies #[trigger] deletions_from(
            times,
            i + 1,
            next,
            now,
        )[m - (i + 1)] == deletions(times, now)[m] by {
            assert(deletions_from(times, i, st, now)[m - i] == deletions(times, now)[m]);
        }
        if anchored(times, now, i) {
            assert(j >= i) by {
                if j < i {
                    assert(j < i < k);
                }
            }
            lemma_tier_walk(times, now, i + 1, next, i, j, k);
        } else {
            lemma_tier_walk(times, now, i + 1, next, a, j, k);
        }
    }
}

/// The walk's invariant holds where it starts, after the newest backup.
proof fn lemma_tier_walk_start(times: Seq<BackupTime>, now: BackupTime, j: int, k: int)
    requires
        times.len() > 1,
        0 <= j < k < times.len(),
        anchored(times, now, j),
        forall|m: int| j < m < k ==> !anchored(times, now, m),
    ensures
        anchored(times, now, k) ==> nanos_between(times[j], times[k]) >= tier_gap(
            kept_old_count(times, now, k),
        ),
        deletions(times, now)[k] ==> nanos_between(now, times[k]) >= day_nanos() && nanos_between(
            times[j],
            times[k],
        ) < tier_gap(kept_old_count(times, now, k) + 1),
{
    let st = Retention { last: times[0], daily: 0, weekly: 0, monthly: 0 };
    lemma_deletions_from_len(times, 1, st, now);
    assert forall|m: int| 1 <= m < times.len() implies #[trigger] deletions_from(times, 1, st, now)[m - 1]
        == deletions(times, now)[m] by {}
    assert(deletions(times, now)[0] == false);
    assert(kept_old_count(times, now, 0) == 0);
    lemma_tier_walk(times, now, 1, st, 0, j, k);
}

/// Kept backups are spaced by tier: between a kept backup older than a day
/// and the kept backup before it (the newest backup, or another kept one
/// older than a day, with none such between them), the gap is at least a
/// day less a minute for the first 7 such backups (daily), a week less ten
/// minutes for the next 4 (weekly), thirty days less thirty minutes for
/// the next 12 (monthly), and 364 days after that (yearly). The gap is
/// measured from the last kept backup, whichever tier kept it.
pub proof fn lemma_kept_backups_follow_tiers(times: Seq<BackupTime>, now: BackupTime, j: int, k: int)
    requires
        0 <= j < k < times.len(),
        anchored(times, now, j),
        anchored(times, now, k),
        forall|m: int| j < m < k ==> !anchored(times, now, m),
    ensures
        nanos_between(times[j], times[k]) >= tier_gap(kept_old_count(times, now, k)),
{
    lemma_tier_walk_start(times, now, j, k);
}

/// A backup is deleted only when it is at least a day old and closer than
/// its tier's gap to the kept backup before it: the gap the next kept old
/// backup would need.
pub proof fn lemma_deleted_backups_are_too_close(times: Seq<BackupTime>, now: BackupTime, j: int, k: int)
    requires
        0 <= j < k < times.len(),
        deletions(times, now)[k],
        anchored(times, now, j),
        forall|m: int| j < m < k ==> !anchored(times, now, m),
    ensures
        nanos_between(now, times[k]) >= day_nanos(),
        nanos_between(times[j], times[k]) < tier_gap(kept_old_count(times, now, k) + 1),
{
    if times.len() <= 1 {
        assert(false);
    }
    lemma_tier_walk_start(times, now, j, k);
}

pub open spec fn backup_prefix() -> Seq<char> {
    "highlights_data_backup_"@
}

pub open spec fn backup_suffix() -> Seq<char> {
    ".db"@
}

/// The format of the time in a backup's name. It avoids `:`, which some
/// file systems do not allow in names.
pub open spec fn timestamp_format() -> Seq<char> {
    "%Y-%m-%dT%H_%M_%S%.f%z"@
}

/// The UTC time (seconds and nanoseconds) that chrono's
/// `DateTime::parse_from_str` reads from `text` in `format`, if it reads one.
pub uninterp spec fn chrono_parse(text: Seq<char>, format: Seq<char>) -> Option<(i64, u32)>;

/// The text that chrono's `format` writes for the UTC time given by
/// seconds and nanoseconds, if chrono can represent that time.
pub uninterp spec fn chrono_format(secs: i64, nanos: u32, format: Seq<char>) -> Option<Seq<char>>;

/// Parses a time with `chrono::DateTime::parse_from_str`.
///
/// Trusted: the result is the named `chrono_parse`, a function of the text
/// and the format alone; a time that chrono read is within its range.
#[verifier::external_body]
fn parse_time(text: &str, format: &str) -> (r: Option<(i64, u32)>)
    ensures
        r == chrono_parse(text@, format@),
        r matches Some(t) ==> chrono_representable(t.0, t.1),
{
    chrono::DateTime::parse_from_str(text, format).ok().map(|t| (t.timestamp(), t.timestamp_subsec_nanos()))
}

/// Formats a UTC time with chrono's `DateTime::from_timestamp` and `format`.
///
/// Trusted: the result is the named `chrono_format`. It is called only with
/// the backup timestamp format, whose specifiers chrono accepts and can
/// always write for a `DateTime<Utc>`, so the result is `Some` exactly when
/// `from_timestamp` accepts the time.
#[verifier::external_body]
fn format_time(secs: i64, nanos: u32, format: &str) -> (r: Option<String>)
    requires
        format@ == timestamp_format(),
    ensures
        r is Some <==> chrono_representable(secs, nanos),
        r is Some <==> chrono_format(secs, nanos, format@) is Some,
        r matches Some(t) ==> chrono_format(secs, nanos, format@) == Some(t@),
{
    chrono::DateTime::from_timestamp(secs, nanos).map(|t| t.format(format).to_string())
}

/// The system clock's time since the Unix epoch, from
/// `std::time::SystemTime::now` and `duration_since(UNIX_EPOCH)`, as whole
/// seconds and the nanoseconds into the last second.
///
/// Trusted: `None` when the clock reads before the epoch (the one error
/// `duration_since` documents); otherwise, as `Duration::subsec_nanos`
/// documents, the nanoseconds are below a billion. Nothing is claimed of
/// the time the clock reads.
#[verifier::external_body]
fn system_time() -> (r: Option<(u64, u32)>)
    ensures
        r matches Some(t) ==> t.1 < 1_000_000_000,
{
    std::time::SystemTime::now()
        .duration_since(std::time::UNIX_EPOCH)
        .ok()
        .map(|d| (d.as_secs(), d.subsec_nanos()))
}

/// Whether chrono represents a time, by `chrono::DateTime::from_timestamp`.
///
/// Trusted: the result is whether `from_timestamp` returns `Some`, which
/// chrono's source (`from_timestamp`, `NaiveDate::from_num_days_from_ce_opt`
/// with its year range, and `NaiveTime::from_num_seconds_from_midnight_opt`)
/// shows to be `chrono_representable`.
#[verifier::external_body]
fn chrono_accepts(secs: i64, nanos: u32) -> (r: bool)
    ensures
        r == chrono_representable(secs, nanos),
{
    chrono::DateTime::from_timestamp(secs, nanos).is_some()
}

/// The time given by seconds since the epoch and nanoseconds, when chrono
/// represents it.
pub fn time_from_parts(secs: i64, nanos: u32) -> (r: Option<BackupTime>)
    ensures
        r is Some <==> chrono_representable(secs, nanos),
        r matches Some(t) ==> t.secs_of() == secs && t.nanos_of() == nanos,
{
    if chrono_accepts(secs, nanos) {
        Some(BackupTime { secs, nanos })
    } else {
        None
    }
}

/// The time that a reading of the clock (seconds since the epoch and
/// nanoseconds) gives, when it fits an `i64` and chrono represents it.
pub fn time_from_clock(secs: u64, nanos: u32) -> (r: Option<BackupTime>)
    ensures
        r is Some <==> (secs <= i64::MAX && chrono_representable(secs as i64, nanos)),
        r matches Some(t) ==> t.secs_of() == secs && t.nanos_of() == nanos,
{
    if secs > i64::MAX as u64 {
        return None;
    }
    time_from_parts(secs as i64, nanos)
}

/// The current time, as backup cleaning measures ages against it: the
/// clock's reading as `time_from_clock` makes it a time; `None` when the
/// clock reads before 1970.
pub fn current_time() -> (r: Option<BackupTime>)
    ensures
        r matches Some(t) ==> chrono_representable(t.secs_of(), t.nanos_of()),
{
    match system_time() {
        Some((secs, nanos)) => time_from_clock(secs, nanos),
        None => None,
    }
}

/// The time recorded in a backup's file name, if the name is one: the
/// prefix, a time in the timestamp format, and the suffix.
pub open spec fn spec_parse_backup_name(name: Seq<char>) -> Option<(i64, u32)> {
    let p = backup_prefix();
    let s = backup_suffix();
    if name.len() >= p.len() + s.len() && name.subrange(0, p.len() as int) == p && name.subrange(
        name.len() - s.len(),
        name.len() as int,
    ) == s {
        chrono_parse(name.subrange(p.len() as int, name.len() - s.len()), timestamp_format())
    } else {
        None
    }
}

/// Whether the characters of `s` at `offset` are those of `part`.
fn chars_match_at(s: &str, offset: usize, part: &str) -> (r: bool)
    requires
        offset + part@.len() <= s@.len() <= usize::MAX,
    ensures
        r == (s@.subrange(offset as int, offset + part@.len()) == part@),
{
    let n = part.unicode_len();
    let mut i: usize = 0;
    while i < n
        invariant
            n == part@.len(),
            offset + n <= s@.len() <= usize::MAX,
            i <= n,
            forall|k: int| 0 <= k < i ==> s@[offset + k] == part@[k],
        decreases n - i,
    {
        if s.get_char(offset + i) != part.get_char(i) {
            assert(s@.subrange(offset as int, offset + part@.len())[i as int] != part@[i as int]);
            return false;
        }
        i = i + 1;
    }
    assert(s@.subrange(offset as int, offset + part@.len()) =~= part@);
    true
}

/// Reads the time from a backup's file name; `None` when the name is not
/// that of a backup.
pub fn parse_backup_name(name: &str) -> (r: Option<BackupTime>)
    ensures
        r matches Some(t) ==> spec_parse_backup_name(name@) == Some((t.secs_of(), t.nanos_of())),
        r is None ==> spec_parse_backup_name(name@) is None,
{
    let prefix = "highlights_data_backup_";
    let suffix = ".db";
    let n = name.unicode_len();
    let p = prefix.unicode_len();
    let s = suffix.unicode_len();
    if n < p || n - p < s {
        return None;
    }
    if !chars_match_at(name, 0, prefix) || !chars_match_at(name, n - s, suffix) {
        return None;
    }
    let middle = name.substring_char(p, n - s);
    match parse_time(middle, "%Y-%m-%dT%H_%M_%S%.f%z") {
        Some((secs, nanos)) => Some(BackupTime { secs, nanos }),
        None => None,
    }
}

/// The file name of a backup made at the time written as `timestamp`.
pub fn backup_file_name(timestamp: &str) -> (r: String)
    ensures
        r@ == backup_prefix() + timestamp@ + backup_suffix(),
{
    let name = "highlights_data_backup_".to_owned();
    let name = name.concat(timestamp);
    name.concat(".db")
}

/// A backup's name is recognised again, with the time its timestamp text
/// holds.
pub proof fn lemma_backup_name_round_trip(timestamp: Seq<char>)
    ensures
        spec_parse_backup_name(backup_prefix() + timestamp + backup_suffix()) == chrono_parse(
            timestamp,
            timestamp_format(),
        ),
{
    let name = backup_prefix() + timestamp + backup_suffix();
    let p = backup_prefix();
    let s = backup_suffix();
    assert(name.subrange(0, p.len() as int) =~= p);
    assert(name.subrange(name.len() - s.len(), name.len() as int) =~= s);
    assert(name.subrange(p.len() as int, name.len() - s.len()) =~= timestamp);
}

/// The name of a backup made at `time`: the prefix, the time in the
/// timestamp format, and the suffix.
pub fn backup_name_at(time: BackupTime) -> (r: String)
    ensures
        chrono_format(time.secs_of(), time.nanos_of(), timestamp_format()) matches Some(text)
            && r@ == backup_prefix() + text + backup_suffix(),
{
    proof {
        use_type_invariant(&time);
    }
    match format_time(time.secs, time.nanos, "%Y-%m-%dT%H_%M_%S%.f%z") {
        Some(text) => {
            let name = backup_file_name(text.as_str());
            assert(chrono_format(time.secs, time.nanos, timestamp_format()) == Some(text@));
            name
        },
        None => {
            assert(false);
            String::new()
        },
    }
}

/// The name for a backup made now; `None` when the system clock cannot
/// give the current time.
pub fn new_backup_file_name() -> (r: Option<String>)
    ensures
        r matches Some(name) ==> exists|secs: i64, nanos: u32, text: Seq<char>|
            chrono_representable(secs, nanos) && chrono_format(secs, nanos, timestamp_format())
                == Some(text) && name@ == backup_prefix() + text + backup_suffix(),
{
    match current_time() {
        Some(now) => {
            let name = backup_name_at(now);
            Some(name)
        },
        None => None,
    }
}

} // verus!
