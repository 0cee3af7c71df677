use vstd::prelude::*;
use std::fmt::Write;
use chrono::TimeZone;
use crate::message::FeeInfoPub;

verus! {

/// Price of parking, charged for each second of a stay.
pub const FEE_PRICE_PER_MIN: u64 = 50;

/// Offset of Korea Standard Time from UTC, in seconds.
pub const KST_OFFSET_SECS: i32 = 9 * 3600;

/// What is known of a parked car: when it entered and, once known, when it
/// left.
#[derive(Debug, Clone, Copy)]
pub struct CarInfo {
    pub enter_time: Option<i64>,
    pub exit_time: Option<i64>,
}

impl Default for CarInfo {
    /// Neither time is known.
    fn default() -> (r: Self)
        ensures
            r.enter_time is None,
            r.exit_time is None,
    {
        CarInfo { enter_time: None, exit_time: None }
    }
}

/// The record of a car that entered at `time_stamp` and has not left.
pub open spec fn entered_at(time_stamp: i64) -> CarInfo {
    CarInfo { enter_time: Some(time_stamp), exit_time: None }
}

// ---------------------------------------------------------------------------
// The registry of parked cars, keyed by licence plate.
// ---------------------------------------------------------------------------

/// The map that a list of (plate, info) entries stands for; a later entry
/// for a plate hides an earlier one.
spec fn entries_map(s: Seq<(String, CarInfo)>) -> Map<Seq<char>, CarInfo>
    decreases s.len(),
{
    if s.len() == 0 {
        Map::empty()
    } else {
        entries_map(s.drop_last()).insert(s.last().0@, s.last().1)
    }
}

/// No two entries carry the same plate.
spec fn keys_unique(s: Seq<(String, CarInfo)>) -> bool {
    forall|i: int, j: int|
        0 <= i < s.len() && 0 <= j < s.len() && i != j ==> #[trigger] s[i].0@ != #[trigger] s[j].0@
}

proof fn lemma_entries_map_has(s: Seq<(String, CarInfo)>, i: int)
    requires
        keys_unique(s),
        0 <= i < s.len(),
    ensures
        entries_map(s).contains_key(s[i].0@),
        entries_map(s)[s[i].0@] == s[i].1,
    decreases s.len(),
{
    if i < s.len() - 1 {
        let d = s.drop_last();
        assert(keys_unique(d)) by {
            assert forall|a: int, b: int|
                0 <= a < d.len() && 0 <= b < d.len() && a != b implies #[trigger] d[a].0@
                != #[trigger] d[b].0@ by {
                assert(d[a] == s[a] && d[b] == s[b]);
            }
        }
        assert(d[i] == s[i]);
        lemma_entries_map_has(d, i);
        assert(s[i].0@ != s[s.len() - 1].0@);
    }
}

proof fn lemma_entries_map_lacks(s: Seq<(String, CarInfo)>, k: Seq<char>)
    requires
        forall|i: int| 0 <= i < s.len() ==> #[trigger] s[i].0@ != k,
    ensures
        !entries_map(s).contains_key(k),
    decreases s.len(),
{
    if s.len() > 0 {
        let d = s.drop_last();
        assert forall|i: int| 0 <= i < d.len() implies #[trigger] d[i].0@ != k by {
            assert(d[i] == s[i]);
        }
        lemma_entries_map_lacks(d, k);
        assert(s[s.len() - 1].0@ != k);
    }
}

proof fn lemma_entries_map_update(s: Seq<(String, CarInfo)>, i: int, e: (String, CarInfo))
    requires
        keys_unique(s),
        0 <= i < s.len(),
        e.0@ == s[i].0@,
    ensures
        entries_map(s.update(i, e)) == entries_map(s).insert(e.0@, e.1),
    decreases s.len(),
{
    let u = s.update(i, e);
    let d = s.drop_last();
    if i == s.len() - 1 {
        assert(u.drop_last() =~= d);
        assert(entries_map(u) =~= entries_map(s).insert(e.0@, e.1));
    } else {
        assert(keys_unique(d)) by {
            assert forall|a: int, b: int|
                0 <= a < d.len() && 0 <= b < d.len() && a != b implies #[trigger] d[a].0@
                != #[trigger] d[b].0@ by {
                assert(d[a] == s[a] && d[b] == s[b]);
            }
        }
        assert(u.drop_last() =~= d.update(i, e));
        lemma_entries_map_update(d, i, e);
        let last = s[s.len() - 1];
        assert(u.last() == last);
        assert(last.0@ != s[i].0@);
        assert(entries_map(u) =~= entries_map(s).insert(e.0@, e.1));
    }
}

proof fn lemma_entries_map_remove(s: Seq<(String, CarInfo)>, i: int)
    requires
        keys_unique(s),
        0 <= i < s.len(),
    ensures
        keys_unique(s.remove(i)),
        entries_map(s.remove(i)) == entries_map(s).remove(s[i].0@),
    decreases s.len(),
{
    let r = s.remove(i);
    let d = s.drop_last();
    let k = s[i].0@;
    assert forall|a: int, b: int|
        0 <= a < r.len() && 0 <= b < r.len() && a != b implies #[trigger] r[a].0@
        != #[trigger] r[b].0@ by {
        let a2 = if a < i { a } else { a + 1 };
        let b2 = if b < i { b } else { b + 1 };
        assert(r[a] == s[a2] && r[b] == s[b2]);
    }
    assert(keys_unique(d)) by {
        assert forall|a: int, b: int|
            0 <= a < d.len() && 0 <= b < d.len() && a != b implies #[trigger] d[a].0@
            != #[trigger] d[b].0@ by {
            assert(d[a] == s[a] && d[b] == s[b]);
        }
    }
    if i == s.len() - 1 {
        assert(r =~= d);
        assert forall|j: int| 0 <= j < d.len() implies #[trigger] d[j].0@ != k by {
            assert(d[j] == s[j]);
        }
        lemma_entries_map_lacks(d, k);
        assert(entries_map(r) =~= entries_map(s).remove(k));
    } else {
        assert(d[i] == s[i]);
        lemma_entries_map_remove(d, i);
        assert(r.drop_last() =~= d.remove(i));
        let last = s[s.len() - 1];
        assert(r.last() == last);
        assert(last.0@ != k);
        assert(entries_map(r) =~= entries_map(s).remove(k));
    }
}

/// The cars currently in the parking lot, keyed by licence plate.
#[derive(Debug)]
pub struct CarRegistry {
    entries: Vec<(String, CarInfo)>,
}

impl View for CarRegistry {
    type V = Map<Seq<char>, CarInfo>;

    closed spec fn view(&self) -> Map<Seq<char>, CarInfo> {
        entries_map(self.entries@)
    }
}

impl CarRegistry {
    #[verifier::type_invariant]
    spec fn well_formed(self) -> bool {
        keys_unique(self.entries@)
    }

    /// An empty registry.
    pub fn new() -> (r: Self)
        ensures
            r@ == Map::<Seq<char>, CarInfo>::empty(),
    {
        CarRegistry { entries: Vec::new() }
    }

    /// The position of the entry for `license_plate`, if there is one.
    fn find(&self, license_plate: &String) -> (r: Option<usize>)
        ensures
            match r {
                Some(i) => i < self.entries@.len() && self.entries@[i as int].0@ == license_plate@,
                None => forall|i: int|
                    0 <= i < self.entries@.len() ==> #[trigger] self.entries@[i].0@ != license_plate@,
            },
    {
        let n = self.entries.len();
        let mut i: usize = 0;
        while i < n
            invariant
                n == self.entries@.len(),
                i <= n,
                forall|j: int| 0 <= j < i ==> #[trigger] self.entries@[j].0@ != license_plate@,
            decreases n - i,
        {
            if self.entries[i].0 == *license_plate {
                return Some(i);
            }
            i = i + 1;
        }
        None
    }

    /// What is recorded for `license_plate`, if anything.
    pub fn get(&self, license_plate: &String) -> (r: Option<CarInfo>)
        ensures
            r == (if self@.contains_key(license_plate@) {
                Some(self@[license_plate@])
            } else {
                None
            }),
    {
        proof {
            use_type_invariant(self);
        }
        match self.find(license_plate) {
            Some(i) => {
                proof {
                    lemma_entries_map_has(self.entries@, i as int);
                }
                Some(self.entries[i].1)
            },
            None => {
                proof {
                    lemma_entries_map_lacks(self.entries@, license_plate@);
                }
                None
            },
        }
    }

    /// Records `info` for `license_plate`, replacing what was recorded before.
    pub fn insert(&mut self, license_plate: String, info: CarInfo)
        ensures
            final(self)@ == old(self)@.insert(license_plate@, info),
    {
        proof {
            use_type_invariant(&*self);
        }
        let found = self.find(&license_plate);
        let mut entries: Vec<(String, CarInfo)> = Vec::new();
        std::mem::swap(&mut entries, &mut self.entries);
        let ghost before = entries@;
        match found {
            Some(i) => {
                proof {
                    lemma_entries_map_update(before, i as int, (license_plate, info));
                }
                entries.set(i, (license_plate, info));
                proof {
                    assert forall|a: int, b: int|
                        0 <= a < entries@.len() && 0 <= b < entries@.len() && a != b implies
                        #[trigger] entries@[a].0@ != #[trigger] entries@[b].0@ by {
                        assert(before[a].0@ == entries@[a].0@ && before[b].0@ == entries@[b].0@);
                    }
                }
            },
            None => {
                entries.push((license_plate, info));
                proof {
                    assert(entries@.drop_last() =~= before);
                    assert forall|a: int, b: int|
                        0 <= a < entries@.len() && 0 <= b < entries@.len() && a != b implies
                        #[trigger] entries@[a].0@ != #[trigger] entries@[b].0@ by {
                        if a < before.len() {
                            assert(entries@[a] == before[a]);
                        }
                        if b < before.len() {
                            assert(entries@[b] == before[b]);
                        }
                    }
                }
            },
        }
        self.entries = entries;
    }
    /// Forgets the car `license_plate`, returning what was recorded for it.
    pub fn remove(&mut self, license_plate: &String) -> (r: Option<CarInfo>)
        ensures
            final(self)@ == old(self)@.remove(license_plate@),
            r == (if old(self)@.contains_key(license_plate@) {
                Some(old(self)@[license_plate@])
            } else {
                None
            }),
    {
        proof {
            use_type_invariant(&*self);
        }
        match self.find(license_plate) {
            Some(i) => {
                let mut entries: Vec<(String, CarInfo)> = Vec::new();
                std::mem::swap(&mut entries, &mut self.entries);
                let ghost before = entries@;
                proof {
                    lemma_entries_map_has(before, i as int);
                    lemma_entries_map_remove(before, i as int);
                }
                let (_, info) = entries.remove(i);
                self.entries = entries;
                Some(info)
            },
            None => {
                proof {
                    lemma_entries_map_lacks(self.entries@, license_plate@);
                    assert(self@.remove(license_plate@) =~= self@);
                }
                None
            },
        }
    }
}

// ---------------------------------------------------------------------------
// Time, as the clock and chrono give it.
// ---------------------------------------------------------------------------

#[verifier::external_type_specification]
#[verifier::external_body]
pub struct ExSystemTime(std::time::SystemTime);

#[verifier::external_type_specification]
#[verifier::external_body]
pub struct ExSystemTimeError(std::time::SystemTimeError);

/// Calls `std::time::SystemTime::now`. Nothing is stated of the reading: it
/// is the system clock's.
#[verifier::external_body]
fn system_time_now() -> (r: std::time::SystemTime) {
    std::time::SystemTime::now()
}

/// Calls `SystemTime::duration_since` with `UNIX_EPOCH`: the time elapsed
/// since the epoch, or an error where `t` lies before it. Nothing is stated
/// of the duration, which depends on a clock reading.
#[verifier::external_body]
fn elapsed_since_unix_epoch(t: &std::time::SystemTime) -> (r: Result<core::time::Duration, std::time::SystemTimeError>) {
    t.duration_since(std::time::UNIX_EPOCH)
}

/// Calls `Duration::as_secs`: the whole seconds of the duration. Nothing is
/// stated: a `Duration` is opaque here.
#[verifier::external_body]
fn duration_whole_secs(d: &core::time::Duration) -> (r: u64) {
    d.as_secs()
}

/// A count of whole seconds since the Unix epoch as a timestamp: the same
/// number where it fits in `i64`, `None` where it does not.
pub fn unix_timestamp_from_secs(secs: u64) -> (r: Option<i64>)
    ensures
        r == (if secs <= i64::MAX as u64 {
            Some(secs as i64)
        } else {
            None
        }),
{
    if secs <= i64::MAX as u64 {
        Some(secs as i64)
    } else {
        None
    }
}

/// The current time in whole seconds since the Unix epoch, UTC: the clock's
/// elapsed seconds since the epoch, converted by `unix_timestamp_from_secs`;
/// `None` where the clock reads a time before the epoch or too late for
/// `i64`.
fn current_timestamp() -> (r: Option<i64>)
    ensures
        r matches Some(t) ==> t >= 0,
{
    let now = system_time_now();
    match elapsed_since_unix_epoch(&now) {
        Ok(elapsed) => unix_timestamp_from_secs(duration_whole_secs(&elapsed)),
        Err(_) => None,
    }
}

/// The digit character for `d` (0 to 9).
pub open spec fn digit_char(d: int) -> char {
    (d + 48) as char
}

/// `n` (0 to 99) written with two digits.
pub open spec fn two_digits(n: int) -> Seq<char> {
    seq![digit_char(n / 10), digit_char(n % 10)]
}

/// The 24-hour wall clock "HH:MM" of a local time given in seconds since a
/// local midnight-aligned epoch: the hour of the day (00 to 23) and the
/// minute of the hour (00 to 59).
pub open spec fn wall_clock_text(local_secs: int) -> Seq<char> {
    let of_day = local_secs % 86_400;
    two_digits(of_day / 3600) + seq![':'] + two_digits((of_day % 3600) / 60)
}

/// `s` ends with `suffix`.
pub open spec fn ends_with(s: Seq<char>, suffix: Seq<char>) -> bool {
    suffix.len() <= s.len() && s.subrange(s.len() - suffix.len(), s.len() as int) == suffix
}

/// The text that chrono renders for the instant `time_stamp` (seconds since
/// the Unix epoch, UTC) seen at a fixed offset of `offset_secs` seconds east
/// of UTC, with the strftime `pattern`; `None` where chrono has no such
/// instant or offset, or refuses the pattern.
pub uninterp spec fn chrono_local_text(time_stamp: i64, offset_secs: i32, pattern: Seq<char>) -> Option<Seq<char>>;

/// Calls `chrono::FixedOffset::east_opt`, `chrono::Utc.timestamp_opt`,
/// `DateTime::with_timezone` and `DateTime::format`, writing the rendering
/// into a new `String`. The result is named by `chrono_local_text` over the
/// three arguments. Of which inputs give `None`, what is stated is what
/// `east_opt` shows: an offset of a day or more either way has none; which
/// instants chrono cannot hold, or which patterns it refuses, is left to the
/// name. Of the text, what is stated is what chrono's strftime shows for a
/// pattern that ends in " %H:%M": a space item, then the hour of the day
/// zero-padded to two digits, ":" and the minute zero-padded to two digits,
/// of the local time, which is the instant shifted by the offset; so a
/// rendering of such a pattern ends in the 24-hour wall clock of
/// `time_stamp + offset_secs`.
#[verifier::external_body]
fn format_local_time(time_stamp: i64, offset_secs: i32, pattern: &str) -> (r: Option<String>)
    ensures
        match r {
            Some(text) => chrono_local_text(time_stamp, offset_secs, pattern@) == Some(text@),
            None => chrono_local_text(time_stamp, offset_secs, pattern@) is None,
        },
        !(-86_400 < offset_secs < 86_400) ==> r is None,
        ends_with(pattern@, " %H:%M"@) ==> (r matches Some(text) ==> ends_with(
            text@,
            wall_clock_text(time_stamp + offset_secs),
        )),
{
    let offset = chrono::FixedOffset::east_opt(offset_secs)?;
    match chrono::Utc.timestamp_opt(time_stamp, 0) {
        chrono::LocalResult::Single(utc) => {
            let mut text = String::new();
            match write!(text, "{}", utc.with_timezone(&offset).format(pattern)) {
                Ok(()) => Some(text),
                Err(_) => None,
            }
        },
        chrono::LocalResult::Ambiguous(_, _) => None,
        chrono::LocalResult::None => None,
    }
}

/// How an entry time is shown: Korea Standard Time, as
/// "<year>년 <month>월 <day>일 <hour>:<minute>".
pub open spec fn kst_entry_text(time_stamp: i64) -> Option<Seq<char>> {
    chrono_local_text(time_stamp, KST_OFFSET_SECS, "%Y년 %m월 %d일 %H:%M"@)
}

// ---------------------------------------------------------------------------
// Entering cars.
// ---------------------------------------------------------------------------

/// Why an entering car was not recorded.
#[derive(Debug, Clone, Copy, PartialEq, Eq, Structural)]
pub enum EntryError {
    /// The clock gave no usable time.
    ClockUnavailable,
    /// The entry time cannot be shown in Korea Standard Time.
    TimeNotShown,
}

/// Records that the car `license_plate` entered at `time_stamp`, replacing
/// any earlier record of it, and returns the entry time as shown in KST.
/// Where that time cannot be shown the car is not recorded.
pub fn add_car_at(registry: &mut CarRegistry, license_plate: String, time_stamp: i64) -> (r: Result<String, EntryError>)
    ensures
        match r {
            Ok(text) => {
                &&& kst_entry_text(time_stamp) == Some(text@)
                &&& ends_with(text@, wall_clock_text(time_stamp + 9 * 3600))
                &&& final(registry)@ == old(registry)@.insert(license_plate@, entered_at(time_stamp))
                &&& final(registry)@[license_plate@].enter_time == Some(time_stamp)
                &&& final(registry)@[license_plate@].exit_time is None
            },
            Err(e) => {
                &&& e == EntryError::TimeNotShown
                &&& kst_entry_text(time_stamp) is None
                &&& final(registry)@ == old(registry)@
            },
        },
{
    let text = format_local_time(time_stamp, KST_OFFSET_SECS, "%Y년 %m월 %d일 %H:%M");
    proof {
        reveal_strlit("%Y년 %m월 %d일 %H:%M");
        reveal_strlit(" %H:%M");
        let p = "%Y년 %m월 %d일 %H:%M"@;
        assert(p.subrange(p.len() - 6, p.len() as int) =~= " %H:%M"@);
    }
    match text {
        Some(text) => {
            registry.insert(license_plate, CarInfo { enter_time: Some(time_stamp), exit_time: None });
            Ok(text)
        },
        None => Err(EntryError::TimeNotShown),
    }
}

/// Records that the car `license_plate` entered now, as `add_car_at` does
/// with the clock's current time; where the clock gives no usable time,
/// nothing is recorded.
pub fn add_car(registry: &mut CarRegistry, license_plate: String) -> (r: Result<String, EntryError>)
    ensures
        match r {
            Err(EntryError::ClockUnavailable) => final(registry)@ == old(registry)@,
            _ => exists|t: i64|
                #![trigger kst_entry_text(t)]
                t >= 0 && match r {
                    Ok(text) => {
                        &&& kst_entry_text(t) == Some(text@)
                        &&& ends_with(text@, wall_clock_text(t + 9 * 3600))
                        &&& final(registry)@ == old(registry)@.insert(license_plate@, entered_at(t))
                        &&& final(registry)@[license_plate@].enter_time == Some(t)
                    },
                    Err(_) => kst_entry_text(t) is None && final(registry)@ == old(registry)@,
                },
        },
{
    match current_timestamp() {
        Some(time_stamp) => add_car_at(registry, license_plate, time_stamp),
        None => Err(EntryError::ClockUnavailable),
    }
}

// ---------------------------------------------------------------------------
// Settling the fee of a car.
// ---------------------------------------------------------------------------

/// Why no fee could be settled.
#[derive(Debug)]
pub enum FeeError {
    /// No car with this plate is recorded.
    CarNotFound(String),
    /// The car is recorded without an entry time.
    NoEntryTime(String),
    /// The fee for the stay does not fit in 64-bit arithmetic.
    FeeOverflow,
    /// The clock gave no usable exit time.
    ClockUnavailable,
}

/// The text that describes a settlement error.
pub open spec fn fee_error_text(e: FeeError) -> Seq<char> {
    match e {
        FeeError::CarNotFound(p) => "fail to get value by key ["@ + p@ + "]"@,
        FeeError::NoEntryTime(p) => "there is no enter time car ["@ + p@ + "]"@,
        FeeError::FeeOverflow => "attempt to compute a parking fee with overflow"@,
        FeeError::ClockUnavailable => "system time before Unix epoch"@,
    }
}

impl FeeError {
    /// The text that describes this error.
    pub fn message(&self) -> (m: String)
        ensures
            m@ == fee_error_text(*self),
    {
        match self {
            FeeError::CarNotFound(p) => {
                let mut m = String::from_str("fail to get value by key [");
                m.append(p.as_str());
                m.append("]");
                m
            },
            FeeError::NoEntryTime(p) => {
                let mut m = String::from_str("there is no enter time car [");
                m.append(p.as_str());
                m.append("]");
                m
            },
            FeeError::FeeOverflow => String::from_str("attempt to compute a parking fee with overflow"),
            FeeError::ClockUnavailable => String::from_str("system time before Unix epoch"),
        }
    }
}

/// The stay from `entry` to `exit`, and its price, fit in `i64`.
pub open spec fn fee_fits(entry: i64, exit: i64) -> bool {
    &&& i64::MIN <= exit - entry <= i64::MAX
    &&& i64::MIN <= (exit - entry) * (FEE_PRICE_PER_MIN as int) <= i64::MAX
}

/// The fee for a stay from `entry` to `exit`: the price per second times the
/// seconds, taken as a `u64` (a negative stay wraps around).
pub open spec fn parking_fee(entry: i64, exit: i64) -> u64 {
    ((exit - entry) * (FEE_PRICE_PER_MIN as int)) as u64
}

/// What settling a car gives, before any text is attached.
pub enum FeeOutcome {
    Settled { entry_time: i64, fee: u64 },
    CarNotFound,
    NoEntryTime,
    Overflow,
}

/// The settlement of `plate` at `exit_time` against the recorded `cars`.
pub open spec fn fee_outcome(cars: Map<Seq<char>, CarInfo>, plate: Seq<char>, exit_time: i64) -> FeeOutcome {
    if !cars.contains_key(plate) {
        FeeOutcome::CarNotFound
    } else {
        match cars[plate].enter_time {
            Some(t) => if fee_fits(t, exit_time) {
                FeeOutcome::Settled { entry_time: t, fee: parking_fee(t, exit_time) }
            } else {
                FeeOutcome::Overflow
            },
            None => FeeOutcome::NoEntryTime,
        }
    }
}

/// `r` is the settlement `outcome` of `plate` at `exit_time`, written out:
/// the fee record with its plate, times, fee, not paid and no discount
/// ("NONE"), or the error that names the plate, or the overflow.
pub open spec fn fee_result_is(r: Result<FeeInfoPub, FeeError>, outcome: FeeOutcome, plate: Seq<char>, exit_time: i64) -> bool {
    match outcome {
        FeeOutcome::Settled { entry_time, fee } => {
            &&& r matches Ok(info)
            &&& info.license_plate@ == plate
            &&& info.entry_time == entry_time
            &&& info.exit_time == exit_time
            &&& info.fee == fee
            &&& !info.is_paid
            &&& info.discount_applied@ == "NONE"@
        },
        FeeOutcome::CarNotFound => r matches Err(FeeError::CarNotFound(p)) && p@ == plate,
        FeeOutcome::NoEntryTime => r matches Err(FeeError::NoEntryTime(p)) && p@ == plate,
        FeeOutcome::Overflow => r matches Err(FeeError::FeeOverflow),
    }
}

/// The registry after a settlement with result `r`: a settled car is
/// forgotten, any other result leaves the registry as it was.
pub open spec fn after_settlement(cars: Map<Seq<char>, CarInfo>, plate: Seq<char>, r: Result<FeeInfoPub, FeeError>) -> Map<Seq<char>, CarInfo> {
    if r is Ok {
        cars.remove(plate)
    } else {
        cars
    }
}

/// Settles the fee of the car `license_plate` leaving at `exit_time` and,
/// once it is settled, forgets the car.
pub fn calculate_parking_fee_at(registry: &mut CarRegistry, license_plate: String, exit_time: i64) -> (r: Result<FeeInfoPub, FeeError>)
    ensures
        fee_result_is(r, fee_outcome(old(registry)@, license_plate@, exit_time), license_plate@, exit_time),
        final(registry)@ == after_settlement(old(registry)@, license_plate@, r),
{
    let info = match registry.get(&license_plate) {
        Some(info) => info,
        None => {
            return Err(FeeError::CarNotFound(license_plate));
        },
    };
    let entry_time = match info.enter_time {
        Some(t) => t,
        None => {
            return Err(FeeError::NoEntryTime(license_plate));
        },
    };
    let total_in_time = match exit_time.checked_sub(entry_time) {
        Some(total) => total,
        None => {
            return Err(FeeError::FeeOverflow);
        },
    };
    let fee = match total_in_time.checked_mul(FEE_PRICE_PER_MIN as i64) {
        Some(fee) => fee,
        None => {
            return Err(FeeError::FeeOverflow);
        },
    };
    registry.remove(&license_plate);
    Ok(FeeInfoPub {
        license_plate,
        exit_time,
        entry_time,
        fee: fee as u64,
        is_paid: false,
        discount_applied: String::from_str("NONE"),
    })
}

/// Settles the fee of the car `license_plate` leaving now, as
/// `calculate_parking_fee_at` does with the clock's current time. Where the
/// car is recorded with an entry time but the clock gives no usable time,
/// `ClockUnavailable` comes back and nothing changes.
pub fn calculate_parking_fee(registry: &mut CarRegistry, license_plate: String) -> (r: Result<FeeInfoPub, FeeError>)
    ensures
        match r {
            Err(FeeError::ClockUnavailable) => {
                &&& old(registry)@.contains_key(license_plate@)
                &&& old(registry)@[license_plate@].enter_time is Some
                &&& final(registry)@ == old(registry)@
            },
            _ => exists|t: i64|
                #![trigger fee_outcome(old(registry)@, license_plate@, t)]
                t >= 0 && fee_result_is(r, fee_outcome(old(registry)@, license_plate@, t), license_plate@, t)
                    && final(registry)@ == after_settlement(old(registry)@, license_plate@, r),
        },
{
    let info = match registry.get(&license_plate) {
        Some(info) => info,
        None => {
            assert(fee_outcome(registry@, license_plate@, 0) == FeeOutcome::CarNotFound);
            return Err(FeeError::CarNotFound(license_plate));
        },
    };
    if info.enter_time.is_none() {
        assert(fee_outcome(registry@, license_plate@, 0) == FeeOutcome::NoEntryTime);
        return Err(FeeError::NoEntryTime(license_plate));
    }
    match current_timestamp() {
        Some(exit_time) => calculate_parking_fee_at(registry, license_plate, exit_time),
        None => Err(FeeError::ClockUnavailable),
    }
}

// ---------------------------------------------------------------------------
// Laws of the registry and of settlement.
// ---------------------------------------------------------------------------

/// Settling a car that was just recorded as entering at `t` finds that entry
/// time, and charges the fee for the stay from `t` to the exit time, where
/// that fee fits in `i64`.
pub proof fn law_settlement_reads_entry(cars: Map<Seq<char>, CarInfo>, plate: Seq<char>, t: i64, exit_time: i64)
    requires
        fee_fits(t, exit_time),
    ensures
        fee_outcome(cars.insert(plate, entered_at(t)), plate, exit_time)
            == (FeeOutcome::Settled { entry_time: t, fee: parking_fee(t, exit_time) }),
{
}

/// Recording an entry again replaces the earlier entry time: settlement
/// goes by the latest one.
pub proof fn law_latest_entry_wins(cars: Map<Seq<char>, CarInfo>, plate: Seq<char>, t1: i64, t2: i64, exit_time: i64)
    requires
        fee_fits(t2, exit_time),
    ensures
        fee_outcome(cars.insert(plate, entered_at(t1)).insert(plate, entered_at(t2)), plate, exit_time)
            == (FeeOutcome::Settled { entry_time: t2, fee: parking_fee(t2, exit_time) }),
{
}

/// Recording another car leaves the settlement of a car unchanged.
pub proof fn law_other_car_unaffected(cars: Map<Seq<char>, CarInfo>, plate: Seq<char>, other: Seq<char>, info: CarInfo, exit_time: i64)
    requires
        plate != other,
    ensures
        fee_outcome(cars.insert(other, info), plate, exit_time) == fee_outcome(cars, plate, exit_time),
{
    assert(cars.insert(other, info).contains_key(plate) == cars.contains_key(plate));
}

/// A car that was never recorded cannot be settled.
pub proof fn law_unknown_car_not_found(plate: Seq<char>, exit_time: i64)
    ensures
        fee_outcome(Map::<Seq<char>, CarInfo>::empty(), plate, exit_time) == FeeOutcome::CarNotFound,
{
}

/// A settled car is forgotten: settling it again, at any time, finds no
/// car, while every other car is settled as before.
pub proof fn law_settled_car_is_forgotten(
    cars: Map<Seq<char>, CarInfo>,
    plate: Seq<char>,
    r: Result<FeeInfoPub, FeeError>,
    other: Seq<char>,
    exit_time: i64,
)
    requires
        r is Ok,
        other != plate,
    ensures
        fee_outcome(after_settlement(cars, plate, r), plate, exit_time) == FeeOutcome::CarNotFound,
        fee_outcome(after_settlement(cars, plate, r), other, exit_time) == fee_outcome(cars, other, exit_time),
{
    assert(cars.remove(plate).contains_key(other) == cars.contains_key(other));
}

/// An entry record holds exactly the entry time and no exit time.
pub proof fn law_entry_record_holds_its_time(t: i64)
    ensures
        entered_at(t).enter_time == Some(t),
        entered_at(t).exit_time is None,
{
}

/// Settlement of a recorded car with entry time `t` at exit `e`, over every
/// `t` and `e`: it succeeds exactly when the stay `e - t` and its price
/// `(e - t) * 50` both fit in `i64`, and is refused as an overflow
/// otherwise. A success carries the entry time `t`, the exit time `e`, the
/// fee `(e - t) * 50` (as a `u64`), the plate, unpaid and no discount, and
/// forgets the car while every other car stays as it was.
pub proof fn law_settlement_at(
    cars: Map<Seq<char>, CarInfo>,
    plate: Seq<char>,
    t: i64,
    e: i64,
    r: Result<FeeInfoPub, FeeError>,
)
    requires
        cars.contains_key(plate),
        cars[plate].enter_time == Some(t),
        fee_result_is(r, fee_outcome(cars, plate, e), plate, e),
    ensures
        (r is Ok) <==> (i64::MIN <= e - t <= i64::MAX && i64::MIN <= (e - t) * 50 <= i64::MAX),
        !(r is Ok) ==> r matches Err(FeeError::FeeOverflow),
        r matches Ok(info) ==> {
            &&& info.entry_time == t
            &&& info.exit_time == e
            &&& info.fee == ((e - t) * 50) as u64
            &&& info.license_plate@ == plate
            &&& !info.is_paid
            &&& info.discount_applied@ == "NONE"@
        },
        r is Ok ==> !after_settlement(cars, plate, r).contains_key(plate),
        forall|other: Seq<char>|
            other != plate ==> after_settlement(cars, plate, r).contains_key(other) == cars.contains_key(other)
                && (cars.contains_key(other) ==> after_settlement(cars, plate, r)[other] == cars[other]),
{
}

/// Settlement of an unrecorded car, at any exit time, finds no car and
/// changes nothing; a car recorded without an entry time is refused as such.
pub proof fn law_settlement_refusals(
    cars: Map<Seq<char>, CarInfo>,
    plate: Seq<char>,
    e: i64,
    r: Result<FeeInfoPub, FeeError>,
)
    requires
        fee_result_is(r, fee_outcome(cars, plate, e), plate, e),
    ensures
        !cars.contains_key(plate) ==> (r matches Err(FeeError::CarNotFound(p)) && p@ == plate),
        cars.contains_key(plate) && cars[plate].enter_time is None ==> (r matches Err(
            FeeError::NoEntryTime(p),
        ) && p@ == plate),
        !(r is Ok) ==> after_settlement(cars, plate, r) == cars,
{
}

/// For a stay that does not run backwards and fits in `i64`, the fee is
/// exactly the price per second times the seconds stayed.
pub proof fn law_fee_is_rate_times_stay(entry: i64, exit_time: i64)
    requires
        entry <= exit_time,
        fee_fits(entry, exit_time),
    ensures
        parking_fee(entry, exit_time) == (exit_time - entry) * (FEE_PRICE_PER_MIN as int),
{
}

/// The fee never decreases as the exit time moves later, for stays that do
/// not run backwards and fit in `i64`.
pub proof fn law_fee_grows_with_stay(entry: i64, exit1: i64, exit2: i64)
    requires
        entry <= exit1 <= exit2,
        fee_fits(entry, exit2),
    ensures
        parking_fee(entry, exit1) <= parking_fee(entry, exit2),
{
}

} // verus!
