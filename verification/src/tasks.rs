//! The task model, the temporal resolver, and the ranking engine.
//!
//! A task's raw due encoding plus a context resolve into exactly one of
//! three temporal states; the ranking engine turns that state and the
//! task's priority into a numeric urgency value and two total orderings.

use vstd::prelude::*;

use crate::priority::Priority;
use crate::time::{
    date_before, date_eq, date_lt, epoch_of_civil, epoch_seconds, parse_civil_date,
    parse_civil_datetime, parse_date_spec, parse_datetime_spec, Context, Date, TimeError,
    ZonedDateTime,
};
use crate::tz::{local_offset, local_offset_of, tz_exists, tz_known};

verus! {

/// The scheduling information a task carries on the wire: the raw date
/// string, the recurrence flag, and an optional explicit zone name that
/// overrides the context's.
#[derive(Debug, PartialEq, Eq)]
pub struct DateInfo {
    pub date: String,
    pub is_recurring: bool,
    pub timezone: Option<String>,
}

impl Clone for DateInfo {
    fn clone(&self) -> (r: Self)
        ensures
            r == *self,
    {
        DateInfo {
            date: self.date.clone(),
            is_recurring: self.is_recurring,
            timezone: match &self.timezone {
                Some(s) => Some(s.clone()),
                None => None,
            },
        }
    }
}

/// An immutable task record; the engine never changes one.
#[derive(Debug, PartialEq, Eq)]
pub struct Task {
    pub id: String,
    pub content: String,
    pub priority: Priority,
    pub description: String,
    pub due: Option<DateInfo>,
    /// Only on rest api return value
    pub is_completed: Option<bool>,
    pub is_deleted: Option<bool>,
    /// Only on sync api return value
    pub checked: Option<bool>,
    /// Only on sync api return value: when the task was completed, as a
    /// twenty-character UTC date-time string
    pub completed_at: Option<String>,
}

impl Clone for Task {
    fn clone(&self) -> (r: Self)
        ensures
            r == *self,
    {
        Task {
            id: self.id.clone(),
            content: self.content.clone(),
            priority: self.priority,
            description: self.description.clone(),
            due: match &self.due {
                Some(d) => Some(d.clone()),
                None => None,
            },
            is_completed: self.is_completed,
            is_deleted: self.is_deleted,
            checked: self.checked,
            completed_at: match &self.completed_at {
                Some(s) => Some(s.clone()),
                None => None,
            },
        }
    }
}

/// How a task is rendered: as one line of a list, or on its own.
pub enum FormatType {
    List,
    Single,
}

/// The resolved temporal state of a task: exactly one of three cases.
#[derive(Clone, Copy, Debug, PartialEq, Eq, Structural)]
pub enum DateTimeInfo {
    NoDateTime,
    Date { date: Date, is_recurring: bool },
    DateTime { datetime: ZonedDateTime, is_recurring: bool },
}

/// Which failure resolution reports, stripped of its diagnostic text.
#[derive(Clone, Copy, Debug, PartialEq, Eq, Structural)]
pub enum ResolveFailure {
    BadParse,
    BadZone,
}

/// The zone name a due date is resolved against: its own explicit zone
/// first, the context's second, none (meaning UTC) last.
pub open spec fn spec_zone_choice(due: DateInfo, ctx: Context) -> Option<Seq<char>> {
    match due.timezone {
        Some(s) => Some(s@),
        None => match ctx.timezone {
            Some(s) => Some(s@),
            None => None,
        },
    }
}

/// What a due specification resolves to under a context.
///
/// A missing due specification is `NoDateTime`. Otherwise the zone name is
/// checked first; an unknown one fails with `BadZone`. A ten-character
/// string is a date only; a nineteen-character one is a wall-clock time
/// anchored to the resolved zone (UTC where none is named); a
/// twenty-character one with its zone marker is fixed to UTC whatever zone
/// is configured; everything else fails with `BadParse`, as does a string
/// whose digits name no real calendar date or time, or a wall-clock time
/// the zone skips or repeats.
pub open spec fn spec_resolve(due: Option<DateInfo>, ctx: Context) -> Result<
    DateTimeInfo,
    ResolveFailure,
> {
    match due {
        None => Ok(DateTimeInfo::NoDateTime),
        Some(d) => {
            let zone = spec_zone_choice(d, ctx);
            if zone matches Some(z) && !tz_known(z) {
                Err(ResolveFailure::BadZone)
            } else {
                let s = d.date@;
                if s.len() == 10 {
                    match parse_date_spec(s) {
                        Some(cd) => Ok(
                            DateTimeInfo::Date { date: cd, is_recurring: d.is_recurring },
                        ),
                        None => Err(ResolveFailure::BadParse),
                    }
                } else if s.len() == 19 {
                    match parse_datetime_spec(s, false) {
                        Some(p) => {
                            let naive = epoch_of_civil(p.0, p.1);
                            match zone {
                                None => Ok(
                                    DateTimeInfo::DateTime {
                                        datetime: ZonedDateTime {
                                            epoch_s: naive as i64,
                                            date: p.0,
                                            time: p.1,
                                        },
                                        is_recurring: d.is_recurring,
                                    },
                                ),
                                Some(z) => match local_offset_of(z, naive) {
                                    Some(o) => Ok(
                                        DateTimeInfo::DateTime {
                                            datetime: ZonedDateTime {
                                                epoch_s: (naive - o) as i64,
                                                date: p.0,
                                                time: p.1,
                                            },
                                            is_recurring: d.is_recurring,
                                        },
                                    ),
                                    None => Err(ResolveFailure::BadParse),
                                },
                            }
                        },
                        None => Err(ResolveFailure::BadParse),
                    }
                } else if s.len() == 20 {
                    match parse_datetime_spec(s, true) {
                        Some(p) => Ok(
                            DateTimeInfo::DateTime {
                                datetime: ZonedDateTime {
                                    epoch_s: epoch_of_civil(p.0, p.1) as i64,
                                    date: p.0,
                                    time: p.1,
                                },
                                is_recurring: d.is_recurring,
                            },
                        ),
                        None => Err(ResolveFailure::BadParse),
                    }
                } else {
                    Err(ResolveFailure::BadParse)
                }
            }
        },
    }
}

/// What the executable resolver returns: the resolved state of
/// `spec_resolve`, with each failure carrying its diagnostic payload — the
/// raw string for a parse failure, the offending name for a zone failure.
pub open spec fn resolve_post(
    due: Option<DateInfo>,
    ctx: Context,
    r: Result<DateTimeInfo, TimeError>,
) -> bool {
    match r {
        Ok(info) => spec_resolve(due, ctx) == Ok::<DateTimeInfo, ResolveFailure>(info),
        Err(e) => match e {
            TimeError::ParseError { input } => {
                &&& spec_resolve(due, ctx) == Err::<DateTimeInfo, ResolveFailure>(
                    ResolveFailure::BadParse,
                )
                &&& due matches Some(d) && input@ == d.date@
            },
            TimeError::TimezoneError { name } => {
                &&& spec_resolve(due, ctx) == Err::<DateTimeInfo, ResolveFailure>(
                    ResolveFailure::BadZone,
                )
                &&& due matches Some(d) && spec_zone_choice(d, ctx) == Some(name@)
            },
        },
    }
}

/// Resolves a due specification under a context into one of the three
/// temporal states, or a typed failure.
#[verifier::rlimit(50)]
pub fn resolve(due: &Option<DateInfo>, ctx: &Context) -> (r: Result<DateTimeInfo, TimeError>)
    ensures
        resolve_post(*due, *ctx, r),
{
    let d = match due {
        None => {
            return Ok(DateTimeInfo::NoDateTime);
        },
        Some(d) => d,
    };
    let zone: Option<&str> = match (&d.timezone, &ctx.timezone) {
        (Some(s), _) => Some(s.as_str()),
        (None, Some(s)) => Some(s.as_str()),
        (None, None) => None,
    };
    match zone {
        Some(z) => {
            if !tz_exists(z) {
                return Err(TimeError::TimezoneError { name: z.to_owned() });
            }
        },
        None => {},
    }
    let s = d.date.as_str();
    let parse_failure = TimeError::ParseError { input: d.date.clone() };
    if !s.is_ascii() {
        return Err(parse_failure);
    }
    let n = s.unicode_len();
    if n == 10 {
        match parse_civil_date(s) {
            Some(cd) => Ok(DateTimeInfo::Date { date: cd, is_recurring: d.is_recurring }),
            None => Err(parse_failure),
        }
    } else if n == 19 {
        match parse_civil_datetime(s, false) {
            Some((cd, t)) => {
                let naive = epoch_seconds(&cd, &t);
                match zone {
                    None => Ok(
                        DateTimeInfo::DateTime {
                            datetime: ZonedDateTime { epoch_s: naive, date: cd, time: t },
                            is_recurring: d.is_recurring,
                        },
                    ),
                    Some(z) => match local_offset(z, naive) {
                        Some(o) => Ok(
                            DateTimeInfo::DateTime {
                                datetime: ZonedDateTime { epoch_s: naive - o, date: cd, time: t },
                                is_recurring: d.is_recurring,
                            },
                        ),
                        None => Err(parse_failure),
                    },
                }
            },
            None => Err(parse_failure),
        }
    } else if n == 20 {
        match parse_civil_datetime(s, true) {
            Some((cd, t)) => Ok(
                DateTimeInfo::DateTime {
                    datetime: ZonedDateTime { epoch_s: epoch_seconds(&cd, &t), date: cd, time: t },
                    is_recurring: d.is_recurring,
                },
            ),
            None => Err(parse_failure),
        }
    } else {
        Err(parse_failure)
    }
}

pub open spec fn spec_has_no_date(t: Task) -> bool {
    t.due is None
}

pub open spec fn spec_is_recurring(t: Task) -> bool {
    match t.due {
        None => false,
        Some(d) => d.is_recurring,
    }
}

/// Today: a resolved date, or a resolved date-time's own wall-clock date,
/// equal to the context's current date.
pub open spec fn spec_is_today(t: Task, ctx: Context) -> bool {
    match spec_resolve(t.due, ctx) {
        Ok(DateTimeInfo::NoDateTime) => false,
        Ok(DateTimeInfo::Date { date, .. }) => date == ctx.today,
        Ok(DateTimeInfo::DateTime { datetime, .. }) => datetime.date == ctx.today,
        Err(_) => false,
    }
}

/// Overdue: a resolved date, or a resolved date-time's own wall-clock date,
/// strictly before the context's current date.
pub open spec fn spec_is_overdue(t: Task, ctx: Context) -> bool {
    match spec_resolve(t.due, ctx) {
        Ok(DateTimeInfo::NoDateTime) => false,
        Ok(DateTimeInfo::Date { date, .. }) => date_lt(date, ctx.today),
        Ok(DateTimeInfo::DateTime { datetime, .. }) => date_lt(datetime.date, ctx.today),
        Err(_) => false,
    }
}

pub open spec fn spec_has_time(t: Task, ctx: Context) -> bool {
    spec_resolve(t.due, ctx) matches Ok(DateTimeInfo::DateTime { .. })
}

/// The concrete instant a task resolves to, where it resolves to one.
pub open spec fn spec_datetime(t: Task, ctx: Context) -> Option<ZonedDateTime> {
    match spec_resolve(t.due, ctx) {
        Ok(DateTimeInfo::DateTime { datetime, .. }) => Some(datetime),
        _ => None,
    }
}

/// The urgency contribution of the due field.
///
/// No due specification is worth 80. A resolved date adds 100 when it is
/// today, 150 when it is already past, and 50 more unless it recurs. A
/// resolved date-time is worth 200 when it lies within fifteen whole
/// minutes of the current instant (strictly less than 960 seconds away in
/// either direction), plus 50 unless it recurs. A failed resolution falls
/// back to the neutral 50.
pub open spec fn spec_date_value(t: Task, ctx: Context) -> int {
    match spec_resolve(t.due, ctx) {
        Ok(DateTimeInfo::NoDateTime) => 80,
        Ok(DateTimeInfo::Date { date, is_recurring }) => {
            let today_value: int = if date == ctx.today {
                100
            } else {
                0
            };
            let overdue_value: int = if date_lt(date, ctx.today) {
                150
            } else {
                0
            };
            let recurring_value: int = if is_recurring {
                0
            } else {
                50
            };
            today_value + overdue_value + recurring_value
        },
        Ok(DateTimeInfo::DateTime { datetime, is_recurring }) => {
            let recurring_value: int = if is_recurring {
                0
            } else {
                50
            };
            if -959 <= datetime.epoch_s - ctx.now_epoch_s <= 959 {
                200 + recurring_value
            } else {
                recurring_value
            }
        },
        Err(_) => 50,
    }
}

/// The urgency contribution of the priority: an unset priority ranks above
/// a low one. Note that this ranking scale does not agree with the absolute
/// ordinal `Priority::to_integer` exposes; the two orders differ.
pub open spec fn spec_priority_value(p: Priority) -> int {
    match p {
        Priority::NotSet => 2,
        Priority::Low => 1,
        Priority::Medium => 3,
        Priority::High => 4,
    }
}

/// The value a task is ranked by: due contribution plus priority
/// contribution.
pub open spec fn spec_value(t: Task, ctx: Context) -> int {
    spec_date_value(t, ctx) + spec_priority_value(t.priority)
}

impl Task {
    /// Resolves the record's due field under the context.
    pub fn datetimeinfo(&self, ctx: &Context) -> (r: Result<DateTimeInfo, TimeError>)
        ensures
            resolve_post(self.due, *ctx, r),
    {
        resolve(&self.due, ctx)
    }

    /// The concrete instant the record is due at, where it has one.
    pub fn datetime(&self, ctx: &Context) -> (r: Option<ZonedDateTime>)
        ensures
            r == spec_datetime(*self, *ctx),
    {
        match self.datetimeinfo(ctx) {
            Ok(DateTimeInfo::DateTime { datetime, .. }) => Some(datetime),
            _ => None,
        }
    }

    pub fn has_no_date(&self) -> (r: bool)
        ensures
            r == spec_has_no_date(*self),
    {
        self.due.is_none()
    }

    pub fn is_recurring(&self) -> (r: bool)
        ensures
            r == spec_is_recurring(*self),
    {
        match &self.due {
            None => false,
            Some(d) => d.is_recurring,
        }
    }

    pub fn is_today(&self, ctx: &Context) -> (r: bool)
        ensures
            r == spec_is_today(*self, *ctx),
    {
        match self.datetimeinfo(ctx) {
            Ok(DateTimeInfo::NoDateTime) => false,
            Ok(DateTimeInfo::Date { date, .. }) => date_eq(&date, &ctx.today),
            Ok(DateTimeInfo::DateTime { datetime, .. }) => date_eq(&datetime.date, &ctx.today),
            Err(_) => false,
        }
    }

    pub fn is_overdue(&self, ctx: &Context) -> (r: bool)
        ensures
            r == spec_is_overdue(*self, *ctx),
    {
        match self.datetimeinfo(ctx) {
            Ok(DateTimeInfo::NoDateTime) => false,
            Ok(DateTimeInfo::Date { date, .. }) => date_before(&date, &ctx.today),
            Ok(DateTimeInfo::DateTime { datetime, .. }) => date_before(&datetime.date, &ctx.today),
            Err(_) => false,
        }
    }

    pub fn has_time(&self, ctx: &Context) -> (r: bool)
        ensures
            r == spec_has_time(*self, *ctx),
    {
        match self.datetimeinfo(ctx) {
            Ok(DateTimeInfo::DateTime { .. }) => true,
            _ => false,
        }
    }

    /// The urgency contribution of the due field.
    pub fn date_value(&self, ctx: &Context) -> (r: u8)
        ensures
            r as int == spec_date_value(*self, *ctx),
    {
        match self.datetimeinfo(ctx) {
            Ok(DateTimeInfo::NoDateTime) => 80,
            Ok(DateTimeInfo::Date { date, is_recurring }) => {
                let today_value: u8 = if date_eq(&date, &ctx.today) {
                    100
                } else {
                    0
                };
                let overdue_value: u8 = if date_before(&date, &ctx.today) {
                    150
                } else {
                    0
                };
                let recurring_value: u8 = if is_recurring {
                    0
                } else {
                    50
                };
                today_value + overdue_value + recurring_value
            },
            Ok(DateTimeInfo::DateTime { datetime, is_recurring }) => {
                let recurring_value: u8 = if is_recurring {
                    0
                } else {
                    50
                };
                let delta: i128 = datetime.epoch_s as i128 - ctx.now_epoch_s as i128;
                if -959 <= delta && delta <= 959 {
                    200 + recurring_value
                } else {
                    recurring_value
                }
            },
            Err(_) => 50,
        }
    }

    /// The urgency contribution of the priority.
    pub fn priority_value(&self) -> (r: u8)
        ensures
            r as int == spec_priority_value(self.priority),
    {
        match self.priority {
            Priority::NotSet => 2,
            Priority::Low => 1,
            Priority::Medium => 3,
            Priority::High => 4,
        }
    }

    /// The numeric value the record is ranked by.
    pub fn value(&self, ctx: &Context) -> (r: u32)
        ensures
            r as int == spec_value(*self, *ctx),
    {
        let date_value: u8 = self.date_value(ctx);
        let priority_value: u8 = self.priority_value();
        date_value as u32 + priority_value as u32
    }
}

/// The view a task subset is selected for.
pub enum TaskFilter {
    Unscheduled,
    Overdue,
    Recurring,
}

pub open spec fn spec_filter(t: Task, ctx: Context, filter: TaskFilter) -> bool {
    match filter {
        TaskFilter::Unscheduled => spec_has_no_date(t) || spec_is_overdue(t, ctx),
        TaskFilter::Overdue => spec_is_overdue(t, ctx),
        TaskFilter::Recurring => spec_is_recurring(t),
    }
}

impl Task {
    /// Whether the record belongs to the given view.
    pub fn filter(&self, ctx: &Context, filter: &TaskFilter) -> (r: bool)
        ensures
            r == spec_filter(*self, *ctx, *filter),
    {
        match filter {
            TaskFilter::Unscheduled => self.has_no_date() || self.is_overdue(ctx),
            TaskFilter::Overdue => self.is_overdue(ctx),
            TaskFilter::Recurring => self.is_recurring(),
        }
    }
}

/// A sorting key: two ranks and the input position, compared
/// lexicographically. Positions are unique, so the order is total and
/// strict, which is exactly stability.
#[derive(Clone, Copy, Debug, PartialEq, Eq, Structural)]
struct SortKey {
    a: i64,
    b: i64,
    idx: usize,
}

spec fn key_le(x: SortKey, y: SortKey) -> bool {
    if x.a != y.a {
        x.a < y.a
    } else if x.b != y.b {
        x.b < y.b
    } else {
        x.idx <= y.idx
    }
}

spec fn keys_sorted(s: Seq<SortKey>) -> bool {
    forall|p: int, q: int| 0 <= p < q < s.len() ==> key_le(#[trigger] s[p], #[trigger] s[q])
}

fn key_le_exec(x: &SortKey, y: &SortKey) -> (r: bool)
    ensures
        r == key_le(*x, *y),
{
    if x.a != y.a {
        x.a < y.a
    } else if x.b != y.b {
        x.b < y.b
    } else {
        x.idx <= y.idx
    }
}

fn out_of_order(keys: &Vec<SortKey>, j: usize) -> (r: bool)
    requires
        1 <= j < keys@.len(),
    ensures
        r == !key_le(keys@[j - 1], keys@[j as int]),
{
    let x = keys[j - 1];
    let y = keys[j];
    !key_le_exec(&x, &y)
}

/// Insertion sort: the same keys, in nondecreasing order.
fn sort_keys(keys: &mut Vec<SortKey>)
    ensures
        final(keys)@.len() == old(keys)@.len(),
        final(keys)@.to_multiset() == old(keys)@.to_multiset(),
        keys_sorted(final(keys)@),
{
    let ghost orig = keys@;
    let n = keys.len();
    let mut i: usize = 1;
    while i < n
        invariant
            1 <= i,
            n == keys@.len(),
            keys@.to_multiset() == orig.to_multiset(),
            forall|p: int, q: int|
                0 <= p < q < i && q < n ==> key_le(#[trigger] keys@[p], #[trigger] keys@[q]),
        decreases n - i,
    {
        let mut j: usize = i;
        while j > 0 && out_of_order(keys, j)
            invariant
                j <= i < n,
                n == keys@.len(),
                keys@.to_multiset() == orig.to_multiset(),
                forall|p: int, q: int|
                    #![trigger keys@[p], keys@[q]]
                    0 <= p < q <= i && q != j ==> key_le(keys@[p], keys@[q]),
                forall|q: int| j < q <= i ==> key_le(keys@[j as int], #[trigger] keys@[q]),
            decreases j,
        {
            let ghost before = keys@;
            let x = keys[j - 1];
            let y = keys[j];
            keys.set(j - 1, y);
            keys.set(j, x);
            proof {
                broadcast use vstd::seq_lib::to_multiset_update;
                broadcast use vstd::seq_lib::group_to_multiset_ensures;
                broadcast use vstd::multiset::group_multiset_axioms;

                let after = keys@;
                assert(after =~= before.update(j - 1, y).update(j as int, x));
                assert(before.update(j - 1, y)[j as int] == y);
                assert(before[j - 1] == x && before[j as int] == y);
                assert(before.contains(x) && before.contains(y));
                assert(before.to_multiset().count(x) > 0 && before.to_multiset().count(y) > 0);
                assert(before.update(j - 1, y).to_multiset() =~= before.to_multiset().insert(
                    y,
                ).remove(x));
                assert(after.to_multiset() =~= before.update(j - 1, y).to_multiset().insert(
                    x,
                ).remove(y));
                assert(after.to_multiset() =~= before.to_multiset());
                assert forall|p: int, q: int|
                    #![trigger after[p], after[q]]
                    0 <= p < q <= i && q != j - 1 implies key_le(after[p], after[q]) by {
                    if q == j {
                        if p == j - 1 {
                            assert(after[p] == before[j as int] && after[q] == before[j - 1]);
                        } else {
                            assert(after[p] == before[p] && after[q] == before[j - 1]);
                            assert(key_le(before[p], before[j - 1]));
                        }
                    } else if p == j - 1 {
                        assert(after[p] == before[j as int] && after[q] == before[q]);
                        assert(key_le(before[j as int], before[q]));
                    } else if p == j {
                        assert(after[p] == before[j - 1] && after[q] == before[q]);
                        assert(key_le(before[j - 1], before[q]));
                    } else {
                        assert(key_le(before[p], before[q]));
                    }
                }
                assert forall|q: int| j - 1 < q <= i implies key_le(
                    keys@[j - 1],
                    #[trigger] keys@[q],
                ) by {
                    if q == j {
                        assert(keys@[j - 1] == before[j as int] && keys@[q] == before[j - 1]);
                    } else {
                        assert(keys@[j - 1] == before[j as int] && keys@[q] == before[q]);
                        assert(key_le(before[j as int], before[q]));
                    }
                }
            }
            j = j - 1;
        }
        proof {
            assert forall|p: int, q: int| 0 <= p < q <= i implies key_le(
                #[trigger] keys@[p],
                #[trigger] keys@[q],
            ) by {
                if q == j {
                    assert(j > 0 ==> key_le(keys@[j - 1], keys@[j as int]));
                    if p < j - 1 {
                        assert(key_le(keys@[p], keys@[j - 1]));
                    }
                }
            }
        }
        i = i + 1;
    }
}

/// `p` is an arrangement of the input positions `0..n`: every position
/// exactly once.
pub open spec fn is_position_permutation(p: Seq<int>, n: int) -> bool {
    &&& p.len() == n
    &&& forall|k: int| 0 <= k < n ==> 0 <= #[trigger] p[k] < n
    &&& forall|k1: int, k2: int| 0 <= k1 < k2 < n ==> p[k1] != p[k2]
    &&& forall|t: int| 0 <= t < n ==> #[trigger] p.contains(t)
}

/// The output takes input positions in nondecreasing key order.
spec fn arranged(ts: Seq<Task>, keys: Seq<SortKey>, out: Seq<Task>, p: Seq<int>) -> bool {
    &&& is_position_permutation(p, ts.len() as int)
    &&& forall|k: int| 0 <= k < p.len() ==> out[k] == ts[#[trigger] p[k]]
    &&& forall|k1: int, k2: int|
        #![trigger p[k1], p[k2]]
        0 <= k1 < k2 < p.len() ==> key_le(keys[p[k1]], keys[p[k2]])
}

/// Sorts the keys and hands the tasks back in the sorted key order.
fn arrange_by_keys(tasks: &Vec<Task>, keys: Vec<SortKey>) -> (r: Vec<Task>)
    requires
        keys@.len() == tasks@.len(),
        forall|k: int| 0 <= k < keys@.len() ==> (#[trigger] keys@[k]).idx == k,
    ensures
        r@.len() == tasks@.len(),
        exists|p: Seq<int>| #[trigger] arranged(tasks@, keys@, r@, p),
{
    let ghost keys0 = keys@;
    let mut keys = keys;
    let n = tasks.len();
    sort_keys(&mut keys);
    proof {
        broadcast use vstd::seq_lib::group_to_multiset_ensures;

        assert(keys0.no_duplicates()) by {
            assert forall|p: int, q: int|
                0 <= p < q < keys0.len() implies keys0[p] != keys0[q] by {
                assert(keys0[p].idx == p && keys0[q].idx == q);
            }
        }
        keys0.lemma_multiset_has_no_duplicates();
        assert forall|x: SortKey| keys@.to_multiset().contains(x) implies keys@.to_multiset().count(
            x,
        ) == 1 by {
            assert(keys0.to_multiset().contains(x));
        }
        keys@.lemma_multiset_has_no_duplicates_conv();
        assert forall|k: int| 0 <= k < n implies (#[trigger] keys@[k]).idx < n && keys0[keys@[k].idx
            as int] == keys@[k] by {
            assert(keys@.contains(keys@[k]));
            assert(keys@.to_multiset().count(keys@[k]) > 0);
            assert(keys0.to_multiset().count(keys@[k]) > 0);
            assert(keys0.contains(keys@[k]));
            let q = choose|q: int| 0 <= q < keys0.len() && keys0[q] == keys@[k];
            assert(keys0[q].idx == q);
        }
    }
    let mut out: Vec<Task> = Vec::new();
    let mut k: usize = 0;
    while k < n
        invariant
            k <= n,
            n == tasks@.len(),
            keys@.len() == n,
            out@.len() == k,
            forall|t: int| 0 <= t < n ==> (#[trigger] keys@[t]).idx < n,
            forall|q: int| 0 <= q < k ==> out@[q] == tasks@[(#[trigger] keys@[q]).idx as int],
        decreases n - k,
    {
        let idx = keys[k].idx;
        out.push(tasks[idx].clone());
        k = k + 1;
    }
    proof {
        let p = Seq::new(n as nat, |q: int| keys@[q].idx as int);
        assert(arranged(tasks@, keys0, out@, p)) by {
            assert forall|k1: int, k2: int| 0 <= k1 < k2 < n implies p[k1] != p[k2] by {
                if keys@[k1].idx == keys@[k2].idx {
                    assert(keys0[keys@[k1].idx as int] == keys@[k1]);
                    assert(keys0[keys@[k2].idx as int] == keys@[k2]);
                    assert(keys@[k1] == keys@[k2]);
                }
            }
            assert forall|k1: int, k2: int|
                #![trigger p[k1], p[k2]]
                0 <= k1 < k2 < n implies key_le(keys0[p[k1]], keys0[p[k2]]) by {
                assert(key_le(keys@[k1], keys@[k2]));
                assert(keys0[p[k1]] == keys@[k1] && keys0[p[k2]] == keys@[k2]);
            }
            assert forall|t: int| 0 <= t < n implies #[trigger] p.contains(t) by {
                broadcast use vstd::seq_lib::group_to_multiset_ensures;

                assert(keys0.contains(keys0[t]));
                assert(keys0.to_multiset().count(keys0[t]) > 0);
                assert(keys@.to_multiset().count(keys0[t]) > 0);
                assert(keys@.contains(keys0[t]));
                let k = choose|k: int| 0 <= k < keys@.len() && keys@[k] == keys0[t];
                assert(p[k] == t);
            }
        }
    }
    out
}

/// Output order for the value ranking: strictly descending value, equal
/// values in input order.
pub open spec fn value_order_respected(ts: Seq<Task>, ctx: Context, p: Seq<int>) -> bool {
    forall|k1: int, k2: int|
        #![trigger p[k1], p[k2]]
        0 <= k1 < k2 < p.len() ==> spec_value(ts[p[k1]], ctx) > spec_value(ts[p[k2]], ctx) || (
        spec_value(ts[p[k1]], ctx) == spec_value(ts[p[k2]], ctx) && p[k1] < p[k2])
}

/// Stable sort, most urgent task first: descending by `spec_value`, tasks
/// of equal value in input order.
pub fn sort_by_value(tasks: Vec<Task>, ctx: &Context) -> (r: Vec<Task>)
    ensures
        r@.len() == tasks@.len(),
        exists|p: Seq<int>|
            {
                &&& #[trigger] is_position_permutation(p, tasks@.len() as int)
                &&& value_order_respected(tasks@, *ctx, p)
                &&& forall|k: int| 0 <= k < p.len() ==> r@[k] == tasks@[#[trigger] p[k]]
            },
{
    let n = tasks.len();
    let mut keys: Vec<SortKey> = Vec::new();
    let mut i: usize = 0;
    while i < n
        invariant
            i <= n,
            n == tasks@.len(),
            keys@.len() == i,
            forall|k: int|
                0 <= k < i ==> {
                    &&& (#[trigger] keys@[k]).idx == k
                    &&& keys@[k].a == -spec_value(tasks@[k], *ctx)
                    &&& keys@[k].b == 0
                },
        decreases n - i,
    {
        let v = tasks[i].value(ctx);
        keys.push(SortKey { a: -(v as i64), b: 0, idx: i });
        i = i + 1;
    }
    let ghost keys0 = keys@;
    let r = arrange_by_keys(&tasks, keys);
    proof {
        let p = choose|p: Seq<int>| #[trigger] arranged(tasks@, keys0, r@, p);
        assert(value_order_respected(tasks@, *ctx, p)) by {
            assert forall|k1: int, k2: int|
                #![trigger p[k1], p[k2]]
                0 <= k1 < k2 < p.len() implies spec_value(tasks@[p[k1]], *ctx) > spec_value(
                tasks@[p[k2]],
                *ctx,
            ) || (spec_value(tasks@[p[k1]], *ctx) == spec_value(tasks@[p[k2]], *ctx) && p[k1]
                < p[k2]) by {
                assert(key_le(keys0[p[k1]], keys0[p[k2]]));
                assert(p[k1] != p[k2]);
            }
        }
        assert(forall|k: int| 0 <= k < p.len() ==> r@[k] == tasks@[#[trigger] p[k]]);
    }
    r
}

/// Output order for the schedule: tasks without a concrete instant first,
/// in input order; then tasks with one, chronologically, equal instants in
/// input order.
pub open spec fn datetime_order_respected(ts: Seq<Task>, ctx: Context, p: Seq<int>) -> bool {
    forall|k1: int, k2: int|
        #![trigger p[k1], p[k2]]
        0 <= k1 < k2 < p.len() ==> match (
            spec_datetime(ts[p[k1]], ctx),
            spec_datetime(ts[p[k2]], ctx),
        ) {
            (Option::None, Option::None) => p[k1] < p[k2],
            (Option::None, Option::Some(_)) => true,
            (Option::Some(_), Option::None) => false,
            (Option::Some(d1), Option::Some(d2)) => d1.epoch_s < d2.epoch_s || (d1.epoch_s
                == d2.epoch_s && p[k1] < p[k2]),
        }
}

/// Stable sort for the schedule view: tasks without a concrete instant
/// first, then chronologically ascending.
pub fn sort_by_datetime(tasks: Vec<Task>, ctx: &Context) -> (r: Vec<Task>)
    ensures
        r@.len() == tasks@.len(),
        exists|p: Seq<int>|
            {
                &&& #[trigger] is_position_permutation(p, tasks@.len() as int)
                &&& datetime_order_respected(tasks@, *ctx, p)
                &&& forall|k: int| 0 <= k < p.len() ==> r@[k] == tasks@[#[trigger] p[k]]
            },
{
    let n = tasks.len();
    let mut keys: Vec<SortKey> = Vec::new();
    let mut i: usize = 0;
    while i < n
        invariant
            i <= n,
            n == tasks@.len(),
            keys@.len() == i,
            forall|k: int|
                0 <= k < i ==> {
                    &&& (#[trigger] keys@[k]).idx == k
                    &&& match spec_datetime(tasks@[k], *ctx) {
                        Option::Some(d) => keys@[k].a == 1 && keys@[k].b == d.epoch_s,
                        Option::None => keys@[k].a == 0 && keys@[k].b == 0,
                    }
                },
        decreases n - i,
    {
        let key = match tasks[i].datetime(ctx) {
            Some(d) => SortKey { a: 1, b: d.epoch_s, idx: i },
            None => SortKey { a: 0, b: 0, idx: i },
        };
        keys.push(key);
        i = i + 1;
    }
    let ghost keys0 = keys@;
    let r = arrange_by_keys(&tasks, keys);
    proof {
        let p = choose|p: Seq<int>| #[trigger] arranged(tasks@, keys0, r@, p);
        assert(datetime_order_respected(tasks@, *ctx, p)) by {
            assert forall|k1: int, k2: int|
                #![trigger p[k1], p[k2]]
                0 <= k1 < k2 < p.len() implies match (
                spec_datetime(tasks@[p[k1]], *ctx),
                spec_datetime(tasks@[p[k2]], *ctx),
            ) {
                (Option::None, Option::None) => p[k1] < p[k2],
                (Option::None, Option::Some(_)) => true,
                (Option::Some(_), Option::None) => false,
                (Option::Some(d1), Option::Some(d2)) => d1.epoch_s < d2.epoch_s || (d1.epoch_s
                    == d2.epoch_s && p[k1] < p[k2]),
            } by {
                assert(key_le(keys0[p[k1]], keys0[p[k2]]));
                assert(p[k1] != p[k2]);
            }
        }
        assert(forall|k: int| 0 <= k < p.len() ==> r@[k] == tasks@[#[trigger] p[k]]);
    }
    r
}

/// A candidate for "next task": due today, undated, or overdue — nothing
/// due strictly in the future.
pub open spec fn spec_not_in_future(t: Task, ctx: Context) -> bool {
    spec_is_today(t, ctx) || spec_has_no_date(t) || spec_is_overdue(t, ctx)
}

/// The candidate predicate as a function value, for stating filters.
pub open spec fn not_in_future_pred(ctx: Context) -> spec_fn(Task) -> bool {
    |t: Task| spec_not_in_future(t, ctx)
}

pub proof fn lemma_filter_push<A>(s: Seq<A>, pred: spec_fn(A) -> bool, x: A)
    ensures
        (s.push(x)).filter(pred) == (if pred(x) {
            s.filter(pred).push(x)
        } else {
            s.filter(pred)
        }),
{
    reveal(Seq::filter);
    assert(s.push(x).drop_last() =~= s);
    assert(s.push(x).last() == x);
}

/// Keeps the tasks that are due today, undated, or overdue, in input order.
pub fn filter_not_in_future(tasks: Vec<Task>, ctx: &Context) -> (r: Result<Vec<Task>, TimeError>)
    ensures
        r matches Ok(v) && v@ == tasks@.filter(not_in_future_pred(*ctx)),
{
    let n = tasks.len();
    let mut out: Vec<Task> = Vec::new();
    let mut i: usize = 0;
    while i < n
        invariant
            i <= n,
            n == tasks@.len(),
            out@ == tasks@.take(i as int).filter(not_in_future_pred(*ctx)),
        decreases n - i,
    {
        let ghost prefix = tasks@.take(i as int);
        let t = &tasks[i];
        if t.is_today(ctx) || t.has_no_date() || t.is_overdue(ctx) {
            out.push(t.clone());
        }
        proof {
            let pred = not_in_future_pred(*ctx);
            assert(tasks@.take(i + 1) =~= prefix.push(tasks@[i as int]));
            lemma_filter_push(prefix, pred, tasks@[i as int]);
        }
        i = i + 1;
    }
    proof {
        assert(tasks@.take(n as int) =~= tasks@);
    }
    Ok(out)
}

/// An appointment for the schedule view: due today, at a concrete time.
pub open spec fn spec_today_and_has_time(t: Task, ctx: Context) -> bool {
    spec_is_today(t, ctx) && spec_has_time(t, ctx)
}

/// The appointment predicate as a function value, for stating filters.
pub open spec fn today_and_has_time_pred(ctx: Context) -> spec_fn(Task) -> bool {
    |t: Task| spec_today_and_has_time(t, ctx)
}

/// Keeps the tasks that are due today at a concrete time, in input order.
pub fn filter_today_and_has_time(tasks: Vec<Task>, ctx: &Context) -> (r: Vec<Task>)
    ensures
        r@ == tasks@.filter(today_and_has_time_pred(*ctx)),
{
    let n = tasks.len();
    let mut out: Vec<Task> = Vec::new();
    let mut i: usize = 0;
    while i < n
        invariant
            i <= n,
            n == tasks@.len(),
            out@ == tasks@.take(i as int).filter(today_and_has_time_pred(*ctx)),
        decreases n - i,
    {
        let ghost prefix = tasks@.take(i as int);
        let t = &tasks[i];
        if t.is_today(ctx) && t.has_time(ctx) {
            out.push(t.clone());
        }
        proof {
            let pred = today_and_has_time_pred(*ctx);
            assert(tasks@.take(i + 1) =~= prefix.push(tasks@[i as int]));
            lemma_filter_push(prefix, pred, tasks@[i as int]);
        }
        i = i + 1;
    }
    proof {
        assert(tasks@.take(n as int) =~= tasks@);
    }
    out
}

pub open spec fn buffer_str(format: FormatType) -> Seq<char> {
    match format {
        FormatType::List => "  "@,
        FormatType::Single => Seq::empty(),
    }
}

pub open spec fn prefix_str(format: FormatType) -> Seq<char> {
    match format {
        FormatType::List => "- "@,
        FormatType::Single => Seq::empty(),
    }
}

pub open spec fn recurring_icon(is_recurring: bool) -> Seq<char> {
    if is_recurring {
        " ↻"@
    } else {
        Seq::empty()
    }
}

pub open spec fn description_part(t: Task, format: FormatType) -> Seq<char> {
    if t.description@.len() == 0 {
        Seq::empty()
    } else {
        "\n"@ + buffer_str(format) + t.description@
    }
}

/// The due segment of a rendered task: empty without a due date, a `Due:`
/// line with the date or time label and a recurrence marker otherwise, and
/// the failure's diagnostic text where resolution failed.
pub open spec fn due_part(t: Task, ctx: Context, format: FormatType) -> Seq<char> {
    match spec_resolve(t.due, ctx) {
        Ok(DateTimeInfo::NoDateTime) => Seq::empty(),
        Ok(DateTimeInfo::Date { date, is_recurring }) => "\n"@ + buffer_str(format) + "Due: "@
            + crate::time::spec_format_date(date, ctx) + recurring_icon(is_recurring),
        Ok(DateTimeInfo::DateTime { datetime, is_recurring }) => "\n"@ + buffer_str(format)
            + "Due: "@ + crate::time::spec_format_datetime(datetime, ctx) + recurring_icon(
            is_recurring,
        ),
        Err(ResolveFailure::BadParse) => match t.due {
            Some(d) => if d.date@.len() == 10 {
                "could not parse Date"@
            } else {
                "cannot parse DateTime: "@ + d.date@
            },
            None => Seq::empty(),
        },
        Err(ResolveFailure::BadZone) => match t.due {
            Some(d) => match spec_zone_choice(d, ctx) {
                Some(z) => "failed to parse timezone: "@ + z,
                None => Seq::empty(),
            },
            None => Seq::empty(),
        },
    }
}

/// The full rendering of a task: prefix, content, description, due segment.
pub open spec fn spec_fmt(t: Task, ctx: Context, format: FormatType) -> Seq<char> {
    prefix_str(format) + t.content@ + description_part(t, format) + due_part(t, ctx, format)
}

impl Task {
    /// Renders the task for display: its content, its description on a line
    /// of its own, and its due label, with list markers where the list
    /// format asks for them.
    #[verifier::rlimit(50)]
    pub fn fmt(&self, ctx: &Context, format: FormatType) -> (r: String)
        ensures
            r@ == spec_fmt(*self, *ctx, format),
    {
        proof {
            reveal_strlit("");
        }
        let buffer: &str = match format {
            FormatType::List => "  ",
            FormatType::Single => "",
        };
        let prefix: &str = match format {
            FormatType::List => "- ",
            FormatType::Single => "",
        };
        let mut s = prefix.to_owned();
        s.append(self.content.as_str());
        if !self.description.as_str().is_empty() {
            s.append("\n");
            s.append(buffer);
            s.append(self.description.as_str());
        }
        match self.datetimeinfo(ctx) {
            Ok(DateTimeInfo::NoDateTime) => {},
            Ok(DateTimeInfo::Date { date, is_recurring }) => {
                s.append("\n");
                s.append(buffer);
                s.append("Due: ");
                s.append(crate::time::format_date(&date, ctx).as_str());
                if is_recurring {
                    s.append(" ↻");
                }
            },
            Ok(DateTimeInfo::DateTime { datetime, is_recurring }) => {
                s.append("\n");
                s.append(buffer);
                s.append("Due: ");
                s.append(crate::time::format_datetime(&datetime, ctx).as_str());
                if is_recurring {
                    s.append(" ↻");
                }
            },
            Err(e) => {
                s.append(e.message().as_str());
            },
        }
        proof {
            assert(s@ =~= spec_fmt(*self, *ctx, format));
        }
        s
    }
}

/// The body lines of a listing: a newline then the rendered task, per task.
pub open spec fn task_lines(ts: Seq<Task>, ctx: Context, format: FormatType) -> Seq<char>
    decreases ts.len(),
{
    if ts.len() == 0 {
        Seq::empty()
    } else {
        task_lines(ts.drop_last(), ctx, format) + "\n"@ + spec_fmt(ts.last(), ctx, format)
    }
}

/// A task with no due specification always scores the neutral dateless
/// value 80, whatever its priority.
pub proof fn lemma_no_due_date_value(t: Task, ctx: Context)
    requires
        t.due is None,
    ensures
        spec_date_value(t, ctx) == 80,
{
}

/// A date-only task due today scores 150 when non-recurring and 100 when
/// recurring: the today term plus the non-recurrence term, never the
/// overdue term.
pub proof fn lemma_today_date_value(t: Task, ctx: Context, date: Date, is_recurring: bool)
    requires
        spec_resolve(t.due, ctx) == Ok::<DateTimeInfo, ResolveFailure>(
            DateTimeInfo::Date { date, is_recurring },
        ),
        date == ctx.today,
    ensures
        spec_date_value(t, ctx) == if is_recurring {
            100int
        } else {
            150int
        },
{
}

/// An overdue date-only task scores the 150 overdue term whether or not it
/// recurs; recurrence only decides the extra 50.
pub proof fn lemma_overdue_date_value(t: Task, ctx: Context, date: Date, is_recurring: bool)
    requires
        spec_resolve(t.due, ctx) == Ok::<DateTimeInfo, ResolveFailure>(
            DateTimeInfo::Date { date, is_recurring },
        ),
        date_lt(date, ctx.today),
    ensures
        spec_date_value(t, ctx) == 150 + if is_recurring {
            0int
        } else {
            50int
        },
{
}

/// A ten-character due string never resolves to the date-time case.
pub proof fn lemma_ten_char_never_datetime(due: DateInfo, ctx: Context)
    requires
        due.date@.len() == 10,
    ensures
        !(spec_resolve(Some(due), ctx) matches Ok(DateTimeInfo::DateTime { .. })),
{
}

/// An explicit zone on the due specification overrides the context: the
/// resolution of such a specification is the same under every context.
pub proof fn lemma_explicit_zone_overrides(due: DateInfo, ctx1: Context, ctx2: Context)
    requires
        due.timezone is Some,
    ensures
        spec_resolve(Some(due), ctx1) == spec_resolve(Some(due), ctx2),
{
}

/// A twenty-character zone-marked due string is anchored to UTC: the
/// resolved instant is exactly its own wall-clock fields read as UTC,
/// whatever zone the context or the due specification names.
pub proof fn lemma_twenty_char_utc(due: DateInfo, ctx: Context, dt: ZonedDateTime, rec: bool)
    requires
        due.date@.len() == 20,
        spec_resolve(Some(due), ctx) == Ok::<DateTimeInfo, ResolveFailure>(
            DateTimeInfo::DateTime { datetime: dt, is_recurring: rec },
        ),
    ensures
        dt.epoch_s == epoch_of_civil(dt.date, dt.time),
{
}

} // verus!
