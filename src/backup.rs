use vstd::prelude::*;

use crate::item::StartupItem;
use crate::text::{chars_of, last_index_of, lemma_last_index_of_range, find_last, copy_range};
use crate::order::vec_eq;

verus! {

broadcast use {vstd::seq_lib::to_multiset_insert, vstd::seq_lib::to_multiset_build};

/// The version written into snapshots.
pub const VERSION: &'static str = "0.1.0";

/// An instant in UTC, as calendar fields.
#[derive(Debug, Clone, Copy, PartialEq, Eq, Structural)]
pub struct Timestamp {
    pub year: u32,
    pub month: u32,
    pub day: u32,
    pub hour: u32,
    pub minute: u32,
    pub second: u32,
    pub nanosecond: u32,
}

/// Whether `y` is a leap year.
pub open spec fn is_leap(y: u32) -> bool {
    (y % 4 == 0 && y % 100 != 0) || y % 400 == 0
}

/// The number of days of a month.
pub open spec fn days_in_month(y: u32, m: u32) -> u32 {
    if m == 2 {
        if is_leap(y) { 29 } else { 28 }
    } else if m == 4 || m == 6 || m == 9 || m == 11 {
        30
    } else {
        31
    }
}

/// `a` is earlier than `b`.
pub open spec fn earlier(a: Timestamp, b: Timestamp) -> bool {
    if a.year != b.year {
        a.year < b.year
    } else if a.month != b.month {
        a.month < b.month
    } else if a.day != b.day {
        a.day < b.day
    } else if a.hour != b.hour {
        a.hour < b.hour
    } else if a.minute != b.minute {
        a.minute < b.minute
    } else if a.second != b.second {
        a.second < b.second
    } else {
        a.nanosecond < b.nanosecond
    }
}

/// The decimal digits of `n`, zero-padded to `width`; `n` must fit.
pub open spec fn padded(n: nat, width: nat) -> Seq<char>
    decreases width,
{
    if width == 0 {
        Seq::empty()
    } else {
        padded(n / 10, (width - 1) as nat).push(digit_char(n % 10))
    }
}

/// The character of a decimal digit.
pub open spec fn digit_char(d: nat) -> char {
    seq!['0', '1', '2', '3', '4', '5', '6', '7', '8', '9'][d as int]
}

impl Timestamp {
    /// A real instant: the fields are in their ranges and the year has four
    /// digits.
    pub open spec fn wf(&self) -> bool {
        &&& self.year <= 9999
        &&& 1 <= self.month <= 12
        &&& 1 <= self.day <= days_in_month(self.year, self.month)
        &&& self.hour < 24
        &&& self.minute < 60
        &&& self.second < 60
        &&& self.nanosecond < 2_000_000_000
    }

    /// The instant as `YYYYMMDD_HHMMSS`.
    pub open spec fn stamp(&self) -> Seq<char> {
        padded(self.year as nat, 4) + padded(self.month as nat, 2) + padded(self.day as nat, 2) + "_"@
            + padded(self.hour as nat, 2) + padded(self.minute as nat, 2) + padded(self.second as nat, 2)
    }

    /// Whether this instant is earlier than `other`.
    pub fn is_before(&self, other: &Timestamp) -> (r: bool)
        ensures
            r == earlier(*self, *other),
    {
        if self.year != other.year {
            self.year < other.year
        } else if self.month != other.month {
            self.month < other.month
        } else if self.day != other.day {
            self.day < other.day
        } else if self.hour != other.hour {
            self.hour < other.hour
        } else if self.minute != other.minute {
            self.minute < other.minute
        } else if self.second != other.second {
            self.second < other.second
        } else {
            self.nanosecond < other.nanosecond
        }
    }
}

/// Appends the digits of `n`, zero-padded to `width`.
fn push_padded(out: &mut String, n: u32, width: u32)
    requires
        width <= 4,
    ensures
        final(out)@ == old(out)@ + padded(n as nat, width as nat),
    decreases width,
{
    if width == 0 {
        assert(padded(n as nat, 0) == Seq::<char>::empty());
        assert(old(out)@ + Seq::<char>::empty() == old(out)@);
        return;
    }
    push_padded(out, n / 10, width - 1);
    let d = n % 10;
    let c = if d == 0 { '0' } else if d == 1 { '1' } else if d == 2 { '2' } else if d == 3 { '3' } else if d == 4 { '4' } else if d == 5 { '5' } else if d == 6 { '6' } else if d == 7 { '7' } else if d == 8 { '8' } else { '9' };
    assert(c == digit_char((n % 10) as nat));
    crate::text::push_char(out, c);
    assert(padded(n as nat, width as nat) == padded((n / 10) as nat, (width - 1) as nat).push(c));
}

/// A snapshot of the entries at one instant.
pub struct Backup {
    pub timestamp: Timestamp,
    pub items: Vec<StartupItem>,
    pub version: String,
    pub description: Option<String>,
}

impl Backup {
    /// A snapshot of `items` taken at `now`.
    pub fn new(items: Vec<StartupItem>, description: Option<String>, now: Timestamp) -> (r: Backup)
        ensures
            r.timestamp == now,
            r.items == items,
            r.version@ == VERSION@,
            r.description == description,
    {
        Backup { timestamp: now, items, version: String::from_str(VERSION), description }
    }

    /// The snapshot's file name: `backup_`, its instant to the second, `.json`.
    pub fn filename(&self) -> (r: String)
        requires
            self.timestamp.wf(),
        ensures
            r@ == "backup_"@ + self.timestamp.stamp() + ".json"@,
    {
        let t = self.timestamp;
        let mut out = String::from_str("backup_");
        push_padded(&mut out, t.year, 4);
        push_padded(&mut out, t.month, 2);
        push_padded(&mut out, t.day, 2);
        out.append("_");
        push_padded(&mut out, t.hour, 2);
        push_padded(&mut out, t.minute, 2);
        push_padded(&mut out, t.second, 2);
        out.append(".json");
        out
    }
}

/// The extension of a file name, as `Path::extension` gives it: what follows
/// the last dot, unless that dot starts the name.
pub open spec fn extension_of(name: Seq<char>) -> Option<Seq<char>> {
    if name == ".."@ || last_index_of(name, '.') <= 0 {
        None
    } else {
        Some(name.subrange(last_index_of(name, '.') + 1, name.len() as int))
    }
}

/// Whether a file in the backup directory is a snapshot: its extension is `json`.
pub fn is_backup_file(name: &str) -> (r: bool)
    ensures
        r == (extension_of(name@) == Some("json"@)),
{
    let cs = chars_of(name);
    proof {
        lemma_last_index_of_range(cs@, '.');
        reveal_strlit("..");
    }
    if cs.len() == 2 && cs[0] == '.' && cs[1] == '.' {
        assert(cs@ == ".."@);
        return false;
    }
    assert(cs@ != ".."@);
    match find_last(&cs, '.') {
        Some(k) => {
            if k == 0 {
                return false;
            }
            let ext = copy_range(&cs, k + 1, cs.len());
            let json = chars_of("json");
            vec_eq(&ext, &json)
        },
        None => false,
    }
}

/// Timestamps never increase along `s`.
pub open spec fn newest_first(s: Seq<(String, Backup)>) -> bool {
    forall|a: int, b: int| 0 <= a < b < s.len() ==> !earlier(s[a].1.timestamp, s[b].1.timestamp)
}

/// Inserting `x` after every snapshot not older than it, and before one that
/// is older, keeps the newest first.
proof fn lemma_insert_newest(o: Seq<(String, Backup)>, p: int, x: (String, Backup))
    requires
        newest_first(o),
        0 <= p <= o.len(),
        forall|k: int| 0 <= k < p ==> !earlier(#[trigger] o[k].1.timestamp, x.1.timestamp),
        p < o.len() ==> earlier(o[p].1.timestamp, x.1.timestamp),
    ensures
        newest_first(o.insert(p, x)),
{
    let nn = o.insert(p, x);
    assert forall|a: int, b: int| 0 <= a < b < nn.len() implies !earlier(nn[a].1.timestamp, nn[b].1.timestamp) by {
        if b < p {
            assert(nn[a] == o[a] && nn[b] == o[b]);
        } else if a < p && b == p {
            assert(nn[a] == o[a]);
        } else if a < p && b > p {
            assert(nn[a] == o[a] && nn[b] == o[b - 1]);
        } else if a == p {
            assert(nn[b] == o[b - 1]);
            assert(nn[a] == x);
            if b - 1 > p {
                assert(!earlier(o[p].1.timestamp, o[b - 1].1.timestamp));
            }
        } else {
            assert(nn[a] == o[a - 1] && nn[b] == o[b - 1]);
        }
    }
}

/// The snapshots of `s` taken at instant `t`, in order.
pub open spec fn taken_at(s: Seq<(String, Backup)>, t: Timestamp) -> Seq<(String, Backup)> {
    s.filter(at_instant(t))
}

/// Whether a snapshot was taken at `t`.
pub open spec fn at_instant(t: Timestamp) -> spec_fn((String, Backup)) -> bool {
    |b: (String, Backup)| b.1.timestamp == t
}

/// The snapshots, newest first; snapshots of one instant keep their order.
pub fn sort_newest_first(backups: Vec<(String, Backup)>) -> (r: Vec<(String, Backup)>)
    ensures
        r@.to_multiset() == backups@.to_multiset(),
        newest_first(r@),
        forall|t: Timestamp| #[trigger] taken_at(r@, t) == taken_at(backups@, t),
{
    let mut rest = backups;
    let ghost all = rest@;
    let mut taken: Vec<(String, Backup)> = Vec::new();
    // Take the snapshots from the back, so that each is moved, not copied.
    while rest.len() > 0
        invariant
            all == rest@ + taken@.reverse(),
        decreases rest@.len(),
    {
        let ghost r0 = rest@;
        let x = rest.pop().unwrap();
        let ghost before = taken@;
        taken.push(x);
        proof {
            assert(taken@.reverse() =~= seq![x] + before.reverse());
            assert(r0 == rest@.push(x));
            assert(all =~= rest@ + taken@.reverse());
        }
    }
    let mut out: Vec<(String, Backup)> = Vec::new();
    let ghost n = all.len();
    assert(all == taken@.reverse());
    assert(all.subrange(0, n as int) == all);
    assert(out@ =~= all.subrange(0, 0));
    while taken.len() > 0
        invariant
            n == all.len(),
            taken@.len() <= n,
            taken@.reverse() == all.subrange(n - taken@.len(), n as int),
            out@.to_multiset() == all.subrange(0, n - taken@.len()).to_multiset(),
            newest_first(out@),
            forall|t: Timestamp| #[trigger] taken_at(out@, t) == taken_at(all.subrange(0, n - taken@.len()), t),
        decreases taken@.len(),
    {
        let ghost t0 = taken@;
        let x = taken.pop().unwrap();
        let ghost j = n - t0.len();
        proof {
            assert(t0 == taken@.push(x));
            assert(t0.reverse() =~= seq![x] + taken@.reverse());
            assert(all.subrange(j, n as int)[0] == x);
            assert(all[j] == x);
            assert(seq![x] + taken@.reverse() == all.subrange(j, n as int));
            assert(taken@.reverse() =~= all.subrange(j, n as int).drop_first());
            assert(all.subrange(j, n as int).drop_first() =~= all.subrange(j + 1, n as int));
            assert(all.subrange(0, j + 1) == all.subrange(0, j).push(x));
        }
        let mut p: usize = 0;
        loop
            invariant
                p <= out@.len(),
                forall|k: int| 0 <= k < p ==> !earlier(#[trigger] out@[k].1.timestamp, x.1.timestamp),
            ensures
                p <= out@.len(),
                forall|k: int| 0 <= k < p ==> !earlier(#[trigger] out@[k].1.timestamp, x.1.timestamp),
                p < out@.len() ==> earlier(out@[p as int].1.timestamp, x.1.timestamp),
            decreases out@.len() - p,
        {
            if p >= out.len() {
                break;
            }
            if out[p].1.timestamp.is_before(&x.1.timestamp) {
                break;
            }
            p += 1;
        }
        let ghost o = out@;
        proof {
            lemma_insert_newest(o, p as int, x);
            assert forall|t: Timestamp| #[trigger] taken_at(o.insert(p as int, x), t) == taken_at(
                all.subrange(0, j + 1),
                t,
            ) by {
                let f = at_instant(t);
                assert(taken_at(o, t) == taken_at(all.subrange(0, j), t));
                all.subrange(0, j).lemma_filter_push(x, f);
                if x.1.timestamp == t {
                    assert forall|m: int| p <= m < o.len() implies !f(#[trigger] o[m]) by {
                        assert(earlier(o[p as int].1.timestamp, x.1.timestamp));
                        if m > p {
                            assert(!earlier(o[p as int].1.timestamp, o[m].1.timestamp));
                        }
                    }
                    crate::order::lemma_filter_insert_last(o, p as int, x, f);
                } else {
                    crate::order::lemma_filter_insert_rejected(o, p as int, x, f);
                }
            }
        }
        out.insert(p, x);
        assert(out@ == o.insert(p as int, x));
    }
    assert(all.subrange(0, all.len() as int) == all);
    out
}

/// A snapshot newer than every other one comes first once the snapshots are
/// ordered newest first.
pub proof fn lemma_newest_is_listed_first(s: Seq<(String, Backup)>, r: Seq<(String, Backup)>, i: int)
    requires
        r.to_multiset() == s.to_multiset(),
        newest_first(r),
        0 <= i < s.len(),
        forall|j: int| 0 <= j < s.len() && j != i ==> earlier(#[trigger] s[j].1.timestamp, s[i].1.timestamp),
    ensures
        r.len() > 0,
        r[0] == s[i],
{
    broadcast use vstd::seq_lib::to_multiset_contains;

    assert(s.contains(s[i]));
    assert(s.to_multiset().count(s[i]) > 0);
    assert(r.to_multiset().count(s[i]) > 0);
    assert(r.contains(s[i]));
    let q = choose|q: int| 0 <= q < r.len() && r[q] == s[i];
    assert(r.contains(r[0]));
    assert(r.to_multiset().count(r[0]) > 0);
    assert(s.to_multiset().count(r[0]) > 0);
    assert(s.contains(r[0]));
    let j = choose|j: int| 0 <= j < s.len() && s[j] == r[0];
    if r[0] != s[i] {
        assert(j != i);
        assert(earlier(r[0].1.timestamp, s[i].1.timestamp));
        if q > 0 {
            assert(!earlier(r[0].1.timestamp, r[q].1.timestamp));
        }
    }
}

/// The newest snapshot of a newest-first list.
pub fn latest(backups: Vec<(String, Backup)>) -> (r: Option<(String, Backup)>)
    ensures
        backups@.len() == 0 ==> r is None,
        backups@.len() > 0 ==> r == Some(backups@[0]),
{
    let mut backups = backups;
    if backups.len() == 0 {
        None
    } else {
        Some(backups.remove(0))
    }
}

} // verus!
