//! The rolling file schedule: when the output file is replaced by a fresh
//! one, how files are named, and which old files are compressed or removed.
use vstd::prelude::*;
use vstd::string::{StrSliceExecFns, StringExecFns};
use vstd::seq_lib::{to_multiset_build, to_multiset_contains, to_multiset_remove};

verus! {

pub const SECOND_IN_NANOS: u64 = 1_000_000_000;
pub const MINUTE_IN_NANOS: u64 = 60_000_000_000;
pub const HOUR_IN_NANOS: u64 = 3_600_000_000_000;
pub const DAY_IN_NANOS: u64 = 86_400_000_000_000;
pub const WEEK_IN_NANOS: u64 = 604_800_000_000_000;

/// Number of rolled files kept when the configuration names none.
pub const DEFAULT_MAX_ROLL_FILES: usize = 10;

/// How often the output file is replaced by a fresh one.
#[derive(Clone, Copy, Debug, PartialEq, Eq, Structural)]
pub enum RollingPeriod {
    Never,
    Secondly,
    Minutely,
    Hourly,
    Daily,
    Weekly,
}

/// Where and how the log files are written.
#[derive(Clone, Debug)]
pub struct RollingConfig {
    pub base_path: String,
    pub file_name_prefix: String,
    pub roll_period: Option<RollingPeriod>,
    pub max_roll_files: Option<usize>,
    pub compress: bool,
}

impl Default for RollingConfig {
    fn default() -> (r: RollingConfig)
        ensures
            r.base_path@ == "./"@,
            r.file_name_prefix@ == "log"@,
            r.roll_period.is_none(),
            r.max_roll_files.is_none(),
            !r.compress,
    {
        RollingConfig {
            base_path: String::from_str("./"),
            file_name_prefix: String::from_str("log"),
            roll_period: None,
            max_roll_files: None,
            compress: false,
        }
    }
}

// ---------------------------------------------------------------- schedule

/// Nanoseconds between rolls for `period`; none when files never roll.
pub open spec fn period_nanos(period: Option<RollingPeriod>) -> Option<u64> {
    match period {
        Some(RollingPeriod::Secondly) => Some(SECOND_IN_NANOS),
        Some(RollingPeriod::Minutely) => Some(MINUTE_IN_NANOS),
        Some(RollingPeriod::Hourly) => Some(HOUR_IN_NANOS),
        Some(RollingPeriod::Daily) => Some(DAY_IN_NANOS),
        Some(RollingPeriod::Weekly) => Some(WEEK_IN_NANOS),
        _ => None,
    }
}

pub fn rolling_nanos(period: Option<RollingPeriod>) -> (r: Option<u64>)
    ensures
        r == period_nanos(period),
{
    match period {
        Some(RollingPeriod::Never) => None,
        Some(RollingPeriod::Secondly) => Some(SECOND_IN_NANOS),
        Some(RollingPeriod::Minutely) => Some(MINUTE_IN_NANOS),
        Some(RollingPeriod::Hourly) => Some(HOUR_IN_NANOS),
        Some(RollingPeriod::Daily) => Some(DAY_IN_NANOS),
        Some(RollingPeriod::Weekly) => Some(WEEK_IN_NANOS),
        None => None,
    }
}

/// Number of rolled files that `config` keeps.
pub fn retention_limit(config: &RollingConfig) -> (r: usize)
    ensures
        r == match config.max_roll_files {
            Some(n) => n,
            None => DEFAULT_MAX_ROLL_FILES,
        },
{
    match config.max_roll_files {
        Some(n) => n,
        None => DEFAULT_MAX_ROLL_FILES,
    }
}

/// When the current output file was opened, and how long it is kept.
#[derive(Clone, Copy, Debug, PartialEq, Eq, Structural)]
pub struct RollSchedule {
    pub interval: Option<u64>,
    pub last_roll: u64,
}

impl RollSchedule {
    /// A roll is due once the interval has passed since the last roll.
    pub open spec fn roll_due(self, now: u64) -> bool {
        match self.interval {
            Some(i) => now as int - self.last_roll as int >= i,
            None => false,
        }
    }

    /// The schedule after asking at time `now` whether to roll.
    pub open spec fn after(self, now: u64) -> RollSchedule {
        if self.roll_due(now) {
            RollSchedule { last_roll: now, ..self }
        } else {
            self
        }
    }

    /// A schedule for files rolled every `period`, the first opened at `now`.
    pub fn new(period: Option<RollingPeriod>, now: u64) -> (r: RollSchedule)
        ensures
            r.interval == period_nanos(period),
            r.last_roll == now,
    {
        RollSchedule { interval: rolling_nanos(period), last_roll: now }
    }

    /// Whether the file is to be rolled at `now`; a roll restarts the interval.
    pub fn should_roll(&mut self, now: u64) -> (r: bool)
        ensures
            r == old(self).roll_due(now),
            *final(self) == old(self).after(now),
    {
        match self.interval {
            Some(i) => {
                if now >= self.last_roll && now - self.last_roll >= i {
                    self.last_roll = now;
                    true
                } else {
                    false
                }
            },
            None => false,
        }
    }

    /// Records that the file was replaced at `now`.
    pub fn mark_rolled(&mut self, now: u64)
        ensures
            *final(self) == (RollSchedule { last_roll: now, ..*old(self) }),
    {
        self.last_roll = now;
    }
}

/// Number of rolls when writes come at the times of `times`, in order.
pub open spec fn roll_count(s: RollSchedule, times: Seq<u64>) -> nat
    decreases times.len(),
{
    if times.len() == 0 {
        0
    } else {
        (if s.roll_due(times[0]) { 1nat } else { 0nat }) + roll_count(s.after(times[0]), times.drop_first())
    }
}

/// Without a roll period no write ever rolls the file, however many writes
/// come and however far apart: the file opened first is the only one.
pub proof fn lemma_never_rolls(s: RollSchedule, times: Seq<u64>)
    requires
        s.interval is None,
    ensures
        roll_count(s, times) == 0,
    decreases times.len(),
{
    if times.len() > 0 {
        lemma_never_rolls(s.after(times[0]), times.drop_first());
    }
}

// ---------------------------------------------------------------- file names

/// `prefix-stamp.log`.
pub open spec fn log_file_name_text(prefix: Seq<char>, stamp: Seq<char>) -> Seq<char> {
    prefix + seq!['-'] + stamp + seq!['.', 'l', 'o', 'g']
}

/// The name of a log file opened at the time written as `stamp`.
pub fn log_file_name(prefix: &str, stamp: &str) -> (r: String)
    ensures
        r@ == log_file_name_text(prefix@, stamp@),
{
    let mut name = String::from_str(prefix);
    name.append("-");
    name.append(stamp);
    name.append(".log");
    proof {
        reveal_strlit("-");
        reveal_strlit(".log");
    }
    assert(name@ =~= log_file_name_text(prefix@, stamp@));
    name
}

pub open spec fn is_digit(c: char) -> bool {
    48 <= (c as u32) <= 57
}

/// The shape of a `%Y%m%d-%H%M%S` stamp: the year, then `MMDD-HHMMSS`. A
/// year from 0 to 9999 is four digits; any other year is a sign and at
/// least four digits.
pub open spec fn is_file_stamp(s: Seq<char>) -> bool {
    let n = s.len() as int;
    &&& n >= 15
    &&& s[n - 7] == '-'
    &&& forall|i: int| n - 11 <= i < n && i != n - 7 ==> is_digit(#[trigger] s[i])
    &&& n == 15 ==> forall|i: int| 0 <= i < 4 ==> is_digit(#[trigger] s[i])
    &&& n > 15 ==> (s[0] == '+' || s[0] == '-') && forall|i: int|
        1 <= i < n - 11 ==> is_digit(#[trigger] s[i])
}

/// Relies on chrono's `Local::now` formatted as `%Y%m%d-%H%M%S`: the local
/// date and time now, which depends on the clock. Whatever the time, the
/// month, day, hour, minute and second are two zero-padded digits each,
/// and the year is written as `is_file_stamp` says.
#[verifier::external_body]
fn local_file_stamp() -> (r: String)
    ensures
        is_file_stamp(r@),
{
    chrono::Local::now().format("%Y%m%d-%H%M%S").to_string()
}

/// The name of a log file opened now, stamped with the local date and time.
pub fn new_log_file_name(prefix: &str) -> (r: String)
    ensures
        exists|stamp: Seq<char>| is_file_stamp(stamp) && r@ == log_file_name_text(prefix@, stamp),
{
    let stamp = local_file_stamp();
    log_file_name(prefix, stamp.as_str())
}

pub open spec fn has_suffix(name: Seq<char>, suffix: Seq<char>) -> bool {
    name.len() >= suffix.len() && name.subrange(name.len() - suffix.len(), name.len() as int)
        == suffix
}

/// A file of this log: its name starts with `prefix` and has the extension
/// `ext`, that is a dot and `ext` after a non-empty stem.
pub open spec fn is_file_of(name: Seq<char>, prefix: Seq<char>, ext: Seq<char>) -> bool {
    prefix.is_prefix_of(name) && name.len() > ext.len() + 1 && has_suffix(
        name,
        seq!['.'] + ext,
    )
}

fn starts_with(name: &str, prefix: &str) -> (r: bool)
    ensures
        r == prefix@.is_prefix_of(name@),
{
    let n = name.unicode_len();
    let p = prefix.unicode_len();
    if p > n {
        return false;
    }
    let mut i: usize = 0;
    while i < p
        invariant
            p <= n,
            n == name@.len(),
            p == prefix@.len(),
            i <= p,
            forall|j: int| 0 <= j < i ==> prefix@[j] == name@[j],
        decreases p - i,
    {
        if name.get_char(i) != prefix.get_char(i) {
            return false;
        }
        i = i + 1;
    }
    true
}

fn ends_with(name: &str, suffix: &str) -> (r: bool)
    ensures
        r == has_suffix(name@, suffix@),
{
    let n = name.unicode_len();
    let k = suffix.unicode_len();
    if k > n {
        return false;
    }
    let mut i: usize = 0;
    while i < k
        invariant
            k <= n,
            n == name@.len(),
            k == suffix@.len(),
            i <= k,
            forall|j: int| 0 <= j < i ==> suffix@[j] == name@[n - k + j],
        decreases k - i,
    {
        if name.get_char(n - k + i) != suffix.get_char(i) {
            assert(name@.subrange(n - k, n as int)[i as int] != suffix@[i as int]);
            return false;
        }
        i = i + 1;
    }
    assert(name@.subrange(n - k, n as int) =~= suffix@);
    true
}

/// Whether `name` is an uncompressed file of the log named by `prefix`.
pub fn is_log_file_name(name: &str, prefix: &str) -> (r: bool)
    ensures
        r == is_file_of(name@, prefix@, seq!['l', 'o', 'g']),
{
    proof {
        reveal_strlit(".log");
    }
    assert(".log"@ =~= seq!['.'] + seq!['l', 'o', 'g']);
    starts_with(name, prefix) && name.unicode_len() > 4 && ends_with(name, ".log")
}

/// Whether `name` is a compressed file of the log named by `prefix`.
pub fn is_compressed_file_name(name: &str, prefix: &str) -> (r: bool)
    ensures
        r == is_file_of(name@, prefix@, seq!['g', 'z']),
{
    proof {
        reveal_strlit(".gz");
    }
    assert(".gz"@ =~= seq!['.'] + seq!['g', 'z']);
    starts_with(name, prefix) && name.unicode_len() > 3 && ends_with(name, ".gz")
}

/// The name that a log file `name` gets once compressed: its `log`
/// extension replaced by `gz`.
pub fn compressed_file_name(name: &str) -> (r: String)
    requires
        name@.len() >= 4,
        has_suffix(name@, seq!['.', 'l', 'o', 'g']),
    ensures
        r@ == name@.subrange(0, name@.len() - 3) + seq!['g', 'z'],
{
    let n = name.unicode_len();
    let stem = name.substring_char(0, n - 3);
    let mut r = String::from_str(stem);
    r.append("gz");
    proof {
        reveal_strlit("gz");
    }
    assert(r@ =~= name@.subrange(0, name@.len() - 3) + seq!['g', 'z']);
    r
}

// ---------------------------------------------------------------- retention

/// Names sort by their characters, earlier names before later ones; the
/// timestamp in a log file's name makes older files sort first.
pub open spec fn name_before(a: Seq<char>, b: Seq<char>) -> bool
    decreases a.len(),
{
    if b.len() == 0 {
        false
    } else if a.len() == 0 {
        true
    } else if a[0] != b[0] {
        (a[0] as u32) < (b[0] as u32)
    } else {
        name_before(a.drop_first(), b.drop_first())
    }
}

pub proof fn lemma_name_before_transitive(a: Seq<char>, b: Seq<char>, c: Seq<char>)
    requires
        name_before(a, b),
        name_before(b, c),
    ensures
        name_before(a, c),
    decreases a.len(),
{
    if a.len() > 0 && a[0] == b[0] && b[0] == c[0] {
        lemma_name_before_transitive(a.drop_first(), b.drop_first(), c.drop_first());
    }
}

pub proof fn lemma_name_before_irreflexive(a: Seq<char>)
    ensures
        !name_before(a, a),
    decreases a.len(),
{
    if a.len() > 0 {
        lemma_name_before_irreflexive(a.drop_first());
    }
}

fn precedes(a: &str, b: &str) -> (r: bool)
    ensures
        r == name_before(a@, b@),
{
    let n = a.unicode_len();
    let m = b.unicode_len();
    let mut i: usize = 0;
    assert(a@.skip(0) =~= a@);
    assert(b@.skip(0) =~= b@);
    while i < n && i < m
        invariant
            n == a@.len(),
            m == b@.len(),
            i <= n,
            i <= m,
            name_before(a@, b@) == name_before(a@.skip(i as int), b@.skip(i as int)),
        decreases n - i,
    {
        let x = a.get_char(i);
        let y = b.get_char(i);
        if x != y {
            return (x as u32) < (y as u32);
        }
        assert(a@.skip(i as int).drop_first() =~= a@.skip(i as int + 1));
        assert(b@.skip(i as int).drop_first() =~= b@.skip(i as int + 1));
        i = i + 1;
    }
    i < m
}

pub open spec fn names_of(v: Seq<String>) -> Seq<Seq<char>> {
    v.map_values(|s: String| s@)
}

/// How many of `n` files remain when the oldest are evicted while at least
/// `max_files` remain: one fewer than the limit, to leave room for the file
/// about to be opened, or none when the limit is zero.
pub open spec fn kept_count(n: nat, max_files: nat) -> nat {
    if max_files == 0 {
        0
    } else if n < max_files {
        n
    } else {
        (max_files - 1) as nat
    }
}

/// Which files an eviction pass removes and which it keeps.
pub struct EvictionPlan {
    /// The evicted files, oldest first.
    pub evicted: Vec<String>,
    pub kept: Vec<String>,
}

/// Splits `names` into the files to evict, oldest first, and the files to
/// keep, so that fewer than `max_files` are kept.
pub fn plan_eviction(names: Vec<String>, max_files: usize) -> (r: EvictionPlan)
    ensures
        r.kept@.len() == kept_count(names@.len(), max_files as nat),
        names_of(r.evicted@).to_multiset().add(names_of(r.kept@).to_multiset()) == names_of(
            names@,
        ).to_multiset(),
        forall|i: int, j: int|
            0 <= i < r.evicted@.len() && 0 <= j < r.kept@.len() ==> !name_before(
                #[trigger] r.kept@[j]@,
                #[trigger] r.evicted@[i]@,
            ),
        forall|i: int, j: int|
            0 <= i < j < r.evicted@.len() ==> !name_before(
                #[trigger] r.evicted@[j]@,
                #[trigger] r.evicted@[i]@,
            ),
{
    let n = names.len();
    let keep: usize = if max_files == 0 {
        0
    } else if n < max_files {
        n
    } else {
        max_files - 1
    };
    let ghost all = names_of(names@);
    let mut kept = names;
    let mut evicted: Vec<String> = Vec::new();
    assert(names_of(evicted@).to_multiset().add(names_of(kept@).to_multiset()) =~= all.to_multiset()) by {
        assert(names_of(evicted@) =~= Seq::<Seq<char>>::empty());
        broadcast use vstd::seq_lib::group_to_multiset_ensures;
    }
    while kept.len() > keep
        invariant
            keep <= kept@.len(),
            keep == kept_count(all.len(), max_files as nat),
            names_of(evicted@).to_multiset().add(names_of(kept@).to_multiset())
                == all.to_multiset(),
            forall|i: int, j: int|
                0 <= i < evicted@.len() && 0 <= j < kept@.len() ==> !name_before(
                    #[trigger] kept@[j]@,
                    #[trigger] evicted@[i]@,
                ),
            forall|i: int, j: int|
                0 <= i < j < evicted@.len() ==> !name_before(
                    #[trigger] evicted@[j]@,
                    #[trigger] evicted@[i]@,
                ),
        decreases kept@.len(),
    {
        let mut oldest: usize = 0;
        let mut j: usize = 1;
        proof {
            lemma_name_before_irreflexive(kept@[0]@);
        }
        while j < kept.len()
            invariant
                0 < kept@.len(),
                oldest < kept@.len(),
                1 <= j <= kept@.len(),
                forall|k: int| 0 <= k < j ==> !name_before(#[trigger] kept@[k]@, kept@[oldest as int]@),
            decreases kept@.len() - j,
        {
            if precedes(kept[j].as_str(), kept[oldest].as_str()) {
                proof {
                    assert forall|k: int| 0 <= k < j + 1 implies !name_before(
                        #[trigger] kept@[k]@,
                        kept@[j as int]@,
                    ) by {
                        lemma_name_before_irreflexive(kept@[j as int]@);
                        if k < j && name_before(kept@[k]@, kept@[j as int]@) {
                            lemma_name_before_transitive(
                                kept@[k]@,
                                kept@[j as int]@,
                                kept@[oldest as int]@,
                            );
                        }
                    }
                }
                oldest = j;
            }
            j = j + 1;
        }
        let ghost before = kept@;
        let ghost ev_before = evicted@;
        let name = kept.remove(oldest);
        proof {
            to_multiset_remove(names_of(before), oldest as int);
            assert(names_of(kept@) =~= names_of(before).remove(oldest as int));
            to_multiset_build(names_of(ev_before), name@);
            assert(names_of(ev_before.push(name)) =~= names_of(ev_before).push(name@));
            assert(names_of(before).to_multiset().contains(name@)) by {
                assert(names_of(before)[oldest as int] == name@);
                to_multiset_contains(names_of(before), name@);
            }
            assert forall|k: int| 0 <= k < kept@.len() implies kept@[k] == before[if k < oldest {
                k
            } else {
                k + 1
            }] by {}
        }
        evicted.push(name);
        proof {
            assert(names_of(evicted@).to_multiset().add(names_of(kept@).to_multiset())
                =~= all.to_multiset());
            assert forall|i: int, j: int|
                0 <= i < evicted@.len() && 0 <= j < kept@.len() implies !name_before(
                #[trigger] kept@[j]@,
                #[trigger] evicted@[i]@,
            ) by {
                let jj = if j < oldest { j } else { j + 1 };
                assert(kept@[j] == before[jj]);
                if i < ev_before.len() {
                    assert(evicted@[i] == ev_before[i]);
                }
            }
            assert forall|i: int, j: int|
                0 <= i < j < evicted@.len() implies !name_before(
                #[trigger] evicted@[j]@,
                #[trigger] evicted@[i]@,
            ) by {
                if j == evicted@.len() - 1 {
                    assert(evicted@[i] == ev_before[i]);
                    assert(before.contains(name));
                } else {
                    assert(evicted@[i] == ev_before[i]);
                    assert(evicted@[j] == ev_before[j]);
                }
            }
        }
    }
    EvictionPlan { evicted, kept }
}

/// After a roll, at most `max_files` uncompressed files of the log remain
/// (those kept plus the one just opened), and at most `max_files - 1`
/// compressed ones, whatever the directory held before.
pub proof fn lemma_retention_bound(existing_logs: nat, existing_archives: nat, max_files: nat)
    requires
        max_files >= 1,
    ensures
        kept_count(existing_logs, max_files) + 1 <= max_files,
        kept_count(existing_archives, max_files) < max_files,
{
}

} // verus!
