use vstd::prelude::*;

use crate::item::{EnvVars, StartupItem};
use crate::order::{dedup_sorted_of, sort_dedup_by_name};
use crate::source_type::SourceType;
use crate::status::ItemStatus;
use crate::text::{
    chars_of, contains, contains_spec, eq_ignore_ascii_case, eq_ignore_ascii_case_spec,
    last_segment, last_segment_spec, lines, lines_spec, lower_of, split_char, split_spec,
    starts_with, starts_with_spec, string_of, to_lowercase, trim_by, trim_chars, trim_spec, views,
    Strip,
};

verus! {

/// The fields of a CSV line so far: those closed by a comma outside quotes,
/// the field being gathered, and whether a quote is open. Quotes only switch
/// the state and are not kept.
pub open spec fn csv_fold(s: Seq<char>) -> (Seq<Seq<char>>, Seq<char>, bool)
    decreases s.len(),
{
    if s.len() == 0 {
        (Seq::empty(), Seq::empty(), false)
    } else {
        let (done, cur, quoted) = csv_fold(s.drop_last());
        let c = s.last();
        if c == '"' {
            (done, cur, !quoted)
        } else if c == ',' && !quoted {
            (done.push(trim_spec(cur)), Seq::empty(), quoted)
        } else {
            (done, cur.push(c), quoted)
        }
    }
}

/// The trimmed fields of a CSV line.
pub open spec fn csv_fields(s: Seq<char>) -> Seq<Seq<char>> {
    csv_fold(s).0.push(trim_spec(csv_fold(s).1))
}

/// The views of a sequence of strings.
pub open spec fn string_views(v: Seq<String>) -> Seq<Seq<char>> {
    v.map_values(|x: String| x@)
}

/// The trimmed fields of a CSV line, where commas inside quotes do not split.
pub fn csv_fields_of(line: &[char]) -> (r: Vec<Vec<char>>)
    ensures
        views(r@) == csv_fields(line@),
{
    let mut done: Vec<Vec<char>> = Vec::new();
    let mut cur: Vec<char> = Vec::new();
    let mut quoted = false;
    let mut i: usize = 0;
    while i < line.len()
        invariant
            i <= line@.len(),
            (views(done@), cur@, quoted) == csv_fold(line@.subrange(0, i as int)),
        decreases line@.len() - i,
    {
        assert(line@.subrange(0, i + 1).drop_last() == line@.subrange(0, i as int));
        let c = line[i];
        if c == '"' {
            quoted = !quoted;
        } else if c == ',' && !quoted {
            let t = trim_chars(&cur, Strip::Whitespace, true, true);
            let ghost before = done@;
            done.push(t);
            assert(views(done@) == views(before).push(trim_spec(cur@)));
            cur = Vec::new();
        } else {
            cur.push(c);
        }
        i += 1;
    }
    assert(line@.subrange(0, line@.len() as int) == line@);
    let t = trim_chars(&cur, Strip::Whitespace, true, true);
    let ghost before = done@;
    done.push(t);
    assert(views(done@) == views(before).push(trim_spec(cur@)));
    done
}

/// Strings holding the given character vectors.
pub fn strings_of(v: &Vec<Vec<char>>) -> (r: Vec<String>)
    ensures
        string_views(r@) == views(v@),
{
    let mut out: Vec<String> = Vec::new();
    let mut i: usize = 0;
    while i < v.len()
        invariant
            i <= v@.len(),
            string_views(out@) == views(v@.subrange(0, i as int)),
        decreases v@.len() - i,
    {
        let ghost before = out@;
        out.push(string_of(&v[i]));
        assert(string_views(out@) == string_views(before).push(v@[i as int]@));
        assert(views(v@.subrange(0, i + 1)) == views(v@.subrange(0, i as int)).push(v@[i as int]@));
        i += 1;
    }
    assert(v@.subrange(0, v@.len() as int) == v@);
    out
}

/// The trimmed fields of a CSV line, where commas inside quotes do not split.
pub fn parse_csv_line(line: &str) -> (r: Vec<String>)
    ensures
        string_views(r@) == csv_fields(line@),
{
    let cs = chars_of(line);
    let f = csv_fields_of(&cs);
    strings_of(&f)
}

/// The status a task's reported state gives: ready or running tasks are
/// enabled, disabled ones disabled, and any other state counts as enabled.
pub open spec fn task_status(st: Seq<char>) -> ItemStatus {
    if eq_ignore_ascii_case_spec(st, "Ready"@) || eq_ignore_ascii_case_spec(st, "Running"@) {
        ItemStatus::Enabled
    } else if eq_ignore_ascii_case_spec(st, "Disabled"@) {
        ItemStatus::Disabled
    } else {
        ItemStatus::Enabled
    }
}

/// The first position in `hs` of a field holding one of `needles`, or -1.
pub open spec fn header_index(hs: Seq<Seq<char>>, needles: Seq<Seq<char>>) -> int
    decreases hs.len(),
{
    if hs.len() == 0 {
        -1
    } else if exists|n: int| 0 <= n < needles.len() && contains_spec(hs[0], #[trigger] needles[n]) {
        0
    } else if header_index(hs.drop_first(), needles) < 0 {
        -1
    } else {
        header_index(hs.drop_first(), needles) + 1
    }
}

/// The field at `i`, or empty where there is none.
pub open spec fn field_or_empty(f: Seq<Seq<char>>, i: int) -> Seq<char> {
    if 0 <= i < f.len() {
        f[i]
    } else {
        Seq::empty()
    }
}

/// Whether a task's trigger text names logon, boot or startup, in any case.
pub open spec fn is_startup_trigger(trigger: Seq<char>) -> bool {
    let l = lower_of(trigger);
    contains_spec(l, "logon"@) || contains_spec(l, "boot"@) || contains_spec(l, "startup"@)
}

/// What a row of the task listing yields: its display name, full task name and
/// status; `None` for a short row, a system task or a task that does not run
/// at logon or boot.
pub open spec fn task_row(f: Seq<Seq<char>>, name_i: int, status_i: int, trigger_i: int) -> Option<
    (Seq<char>, Seq<char>, ItemStatus),
> {
    if f.len() <= name_i {
        None
    } else {
        let task = f[name_i];
        if contains_spec(task, "\\Microsoft\\"@) || starts_with_spec(task, "Microsoft"@) {
            None
        } else if !is_startup_trigger(field_or_empty(f, trigger_i)) {
            None
        } else {
            Some((last_segment_spec(task, '\\'), task, task_status(field_or_empty(f, status_i))))
        }
    }
}

/// The rows that `rows` yield, in order.
pub open spec fn task_rows(rows: Seq<Seq<char>>, name_i: int, status_i: int, trigger_i: int) -> Seq<
    (Seq<char>, Seq<char>, ItemStatus),
>
    decreases rows.len(),
{
    if rows.len() == 0 {
        Seq::empty()
    } else {
        let prev = task_rows(rows.drop_last(), name_i, status_i, trigger_i);
        match task_row(csv_fields(rows.last()), name_i, status_i, trigger_i) {
            Some(t) => prev.push(t),
            None => prev,
        }
    }
}

/// The header fields of a listing: split at commas, quotes trimmed.
pub open spec fn header_fields(line: Seq<char>) -> Seq<Seq<char>> {
    split_spec(line, ',').map_values(|h: Seq<char>| trim_by(h, Strip::Only('"')))
}

/// The rows that a verbose CSV task listing yields, before duplicates go.
pub open spec fn listing_rows(out: Seq<char>) -> Seq<(Seq<char>, Seq<char>, ItemStatus)> {
    let ls = lines_spec(out);
    if ls.len() <= 1 {
        Seq::empty()
    } else {
        let hs = header_fields(ls[0]);
        let name_i = header_index(hs, seq!["TaskName"@]);
        if name_i < 0 {
            Seq::empty()
        } else {
            task_rows(
                ls.subrange(1, ls.len() as int),
                name_i,
                header_index(hs, seq!["Status"@]),
                header_index(hs, seq!["Trigger"@, "Start"@]),
            )
        }
    }
}

/// `item` is the scheduled-task entry made from a row.
pub open spec fn is_task_item(item: StartupItem, row: (Seq<char>, Seq<char>, ItemStatus), command: Seq<char>, env: EnvVars) -> bool {
    &&& item.built_under(env)
    &&& item.name@ == row.0
    &&& item.source == SourceType::ScheduledTask
    &&& item.source_location@ == row.1
    &&& item.command@ == command
    &&& item.status == row.2
    &&& item.publisher is None
    &&& item.description is None
}

/// The scheduled-task entries of `rows`, in order.
pub open spec fn task_items(items: Seq<StartupItem>, rows: Seq<(Seq<char>, Seq<char>, ItemStatus)>, env: EnvVars) -> bool {
    &&& items.len() == rows.len()
    &&& forall|k: int|
        0 <= k < rows.len() ==> is_task_item(
            #[trigger] items[k],
            rows[k],
            "Scheduled Task: "@ + rows[k].1,
            env,
        )
}

/// Whether `h` holds one of `needles`.
fn holds_any(h: &Vec<char>, needles: &Vec<Vec<char>>) -> (r: bool)
    ensures
        r == exists|n: int| 0 <= n < needles@.len() && contains_spec(h@, #[trigger] views(needles@)[n]),
{
    let mut n: usize = 0;
    while n < needles.len()
        invariant
            n <= needles@.len(),
            forall|m: int| 0 <= m < n ==> !contains_spec(h@, #[trigger] views(needles@)[m]),
        decreases needles@.len() - n,
    {
        if contains(h, &needles[n]) {
            assert(contains_spec(h@, views(needles@)[n as int]));
            return true;
        }
        n += 1;
    }
    false
}

/// Position of the first header holding one of the needles.
fn find_header(hs: &Vec<Vec<char>>, needles: &Vec<Vec<char>>) -> (r: Option<usize>)
    ensures
        r matches Some(i) ==> i == header_index(views(hs@), views(needles@)),
        r is None <==> header_index(views(hs@), views(needles@)) < 0,
{
    let ghost nv = views(needles@);
    let ghost hv = views(hs@);
    let mut i: usize = hs.len();
    let mut found: Option<usize> = None;
    assert(hv.subrange(hv.len() as int, hv.len() as int).len() == 0);
    // Walk from the back so that the answer is the first match.
    while i > 0
        invariant
            hv == views(hs@),
            nv == views(needles@),
            i <= hs@.len(),
            found matches Some(k) ==> k == i + header_index(hv.subrange(i as int, hv.len() as int), nv)
                && header_index(hv.subrange(i as int, hv.len() as int), nv) >= 0,
            found is None <==> header_index(hv.subrange(i as int, hv.len() as int), nv) < 0,
        decreases i,
    {
        let hit = holds_any(&hs[i - 1], needles);
        let ghost t = hv.subrange(i - 1, hv.len() as int);
        assert(t.drop_first() == hv.subrange(i as int, hv.len() as int));
        assert(t[0] == hs@[i - 1]@);
        if hit {
            found = Some(i - 1);
        }
        i -= 1;
    }
    assert(hv.subrange(0, hv.len() as int) == hv);
    found
}

/// `s` with leading and trailing quotes removed, for each piece.
fn unquote_all(v: &Vec<Vec<char>>) -> (r: Vec<Vec<char>>)
    ensures
        views(r@) == views(v@).map_values(|h: Seq<char>| trim_by(h, Strip::Only('"'))),
{
    let mut out: Vec<Vec<char>> = Vec::new();
    let mut i: usize = 0;
    while i < v.len()
        invariant
            i <= v@.len(),
            views(out@) == views(v@.subrange(0, i as int)).map_values(
                |h: Seq<char>| trim_by(h, Strip::Only('"')),
            ),
        decreases v@.len() - i,
    {
        let ghost before = out@;
        out.push(trim_chars(&v[i], Strip::Only('"'), true, true));
        assert(views(v@.subrange(0, i + 1)) == views(v@.subrange(0, i as int)).push(v@[i as int]@));
        assert(views(out@) == views(before).push(trim_by(v@[i as int]@, Strip::Only('"'))));
        i += 1;
    }
    assert(v@.subrange(0, v@.len() as int) == v@);
    out
}


/// What a row of the short task listing yields: its display name, full task
/// name and status; `None` for a short row, a system task, or a state other
/// than ready, running or disabled.
pub open spec fn short_row(f: Seq<Seq<char>>) -> Option<(Seq<char>, Seq<char>, ItemStatus)> {
    if f.len() < 4 {
        None
    } else {
        let task = f[0];
        let st = f[2];
        if starts_with_spec(task, "\\Microsoft\\"@) {
            None
        } else if eq_ignore_ascii_case_spec(st, "Ready"@) || eq_ignore_ascii_case_spec(st, "Running"@) {
            Some((last_segment_spec(task, '\\'), task, ItemStatus::Enabled))
        } else if eq_ignore_ascii_case_spec(st, "Disabled"@) {
            Some((last_segment_spec(task, '\\'), task, ItemStatus::Disabled))
        } else {
            None
        }
    }
}

/// The rows that `rows` of the short listing yield, in order.
pub open spec fn short_rows(rows: Seq<Seq<char>>) -> Seq<(Seq<char>, Seq<char>, ItemStatus)>
    decreases rows.len(),
{
    if rows.len() == 0 {
        Seq::empty()
    } else {
        let prev = short_rows(rows.drop_last());
        match short_row(header_fields(rows.last())) {
            Some(t) => prev.push(t),
            None => prev,
        }
    }
}

/// The rows that a short CSV task listing yields: every line after the header.
pub open spec fn short_listing_rows(out: Seq<char>) -> Seq<(Seq<char>, Seq<char>, ItemStatus)> {
    let ls = lines_spec(out);
    if ls.len() <= 1 {
        Seq::empty()
    } else {
        short_rows(ls.subrange(1, ls.len() as int))
    }
}

/// The entries of `rows` of the short listing, each with its task name as
/// command, in order.
pub open spec fn short_items(items: Seq<StartupItem>, rows: Seq<(Seq<char>, Seq<char>, ItemStatus)>, env: EnvVars) -> bool {
    &&& items.len() == rows.len()
    &&& forall|k: int| 0 <= k < rows.len() ==> is_task_item(#[trigger] items[k], rows[k], rows[k].1, env)
}

/// A position given as an option, -1 for none.
pub open spec fn index_or_none(o: Option<usize>) -> int {
    match o {
        Some(i) => i as int,
        None => -1,
    }
}

/// The field at `i`, or nothing.
fn field_at(f: &Vec<Vec<char>>, i: Option<usize>) -> (r: Vec<char>)
    ensures
        r@ == field_or_empty(views(f@), index_or_none(i)),
{
    match i {
        Some(k) => {
            if k < f.len() {
                f[k].clone()
            } else {
                Vec::new()
            }
        },
        None => Vec::new(),
    }
}

/// The status that a task state gives (see `task_status`).
fn status_of(st: &Vec<char>) -> (r: ItemStatus)
    ensures
        r == task_status(st@),
{
    let ready = chars_of("Ready");
    let running = chars_of("Running");
    let disabled = chars_of("Disabled");
    if eq_ignore_ascii_case(st, &ready) || eq_ignore_ascii_case(st, &running) {
        ItemStatus::Enabled
    } else if eq_ignore_ascii_case(st, &disabled) {
        ItemStatus::Disabled
    } else {
        ItemStatus::Enabled
    }
}

/// `a` followed by `b`.
pub fn concat_chars(a: &[char], b: &[char]) -> (r: Vec<char>)
    ensures
        r@ == a@ + b@,
{
    let mut out = crate::text::copy_range(a, 0, a.len());
    assert(a@.subrange(0, a@.len() as int) == a@);
    let mut i: usize = 0;
    while i < b.len()
        invariant
            i <= b@.len(),
            out@ == a@ + b@.subrange(0, i as int),
        decreases b@.len() - i,
    {
        out.push(b[i]);
        assert(b@.subrange(0, i + 1) == b@.subrange(0, i as int).push(b@[i as int]));
        i += 1;
    }
    assert(b@.subrange(0, b@.len() as int) == b@);
    out
}

/// The unit that reads the task scheduler's listing.
pub struct TaskSchedulerScanner;

impl TaskSchedulerScanner {
    pub fn new() -> (r: TaskSchedulerScanner) {
        TaskSchedulerScanner
    }

    /// The source types this adapter owns.
    pub fn source_types(&self) -> (r: Vec<SourceType>)
        ensures
            r@ == seq![SourceType::ScheduledTask],
    {
        vec![SourceType::ScheduledTask]
    }

    /// The entry that one row of the verbose listing yields, if any.
    fn row_item(f: &Vec<Vec<char>>, name_i: usize, status_i: Option<usize>, trigger_i: Option<usize>, env: &EnvVars) -> (r: Option<StartupItem>)
        ensures
            match task_row(views(f@), name_i as int, index_or_none(status_i), index_or_none(trigger_i)) {
                Some(row) => r matches Some(it) && is_task_item(it, row, "Scheduled Task: "@ + row.1, *env),
                None => r is None,
            },
    {
        if f.len() <= name_i {
            return None;
        }
        let task = &f[name_i];
        assert(views(f@)[name_i as int] == task@);
        let system_dir = chars_of("\\Microsoft\\");
        let vendor = chars_of("Microsoft");
        if contains(task, &system_dir) || starts_with(task, &vendor) {
            return None;
        }
        let trigger = field_at(f, trigger_i);
        let lower = chars_of(to_lowercase(string_of(&trigger).as_str()).as_str());
        let logon = chars_of("logon");
        let boot = chars_of("boot");
        let startup = chars_of("startup");
        if !(contains(&lower, &logon) || contains(&lower, &boot) || contains(&lower, &startup)) {
            return None;
        }
        let status = status_of(&field_at(f, status_i));
        let display = last_segment(task, '\\');
        let prefix = chars_of("Scheduled Task: ");
        let command = concat_chars(&prefix, task);
        let item = StartupItem::new(
            string_of(&display),
            SourceType::ScheduledTask,
            string_of(task),
            string_of(&command),
            env,
        ).with_status(status);
        Some(item)
    }

    /// The entry that one row of the short listing yields, if any.
    fn short_row_item(f: &Vec<Vec<char>>, env: &EnvVars) -> (r: Option<StartupItem>)
        ensures
            match short_row(views(f@)) {
                Some(row) => r matches Some(it) && is_task_item(it, row, row.1, *env),
                None => r is None,
            },
    {
        if f.len() < 4 {
            return None;
        }
        let task = &f[0];
        let st = &f[2];
        assert(views(f@)[0] == task@ && views(f@)[2] == st@);
        let system_dir = chars_of("\\Microsoft\\");
        if starts_with(task, &system_dir) {
            return None;
        }
        let ready = chars_of("Ready");
        let running = chars_of("Running");
        let disabled = chars_of("Disabled");
        let status = if eq_ignore_ascii_case(st, &ready) || eq_ignore_ascii_case(st, &running) {
            ItemStatus::Enabled
        } else if eq_ignore_ascii_case(st, &disabled) {
            ItemStatus::Disabled
        } else {
            return None;
        };
        let display = last_segment(task, '\\');
        let item = StartupItem::new(
            string_of(&display),
            SourceType::ScheduledTask,
            string_of(task),
            string_of(task),
            env,
        ).with_status(status);
        Some(item)
    }

    /// The entries of a short CSV task listing (name, next run, status per
    /// line), skipping the header, system tasks and unknown states.
    pub fn parse_schtasks_output(&self, output: &str, env: &EnvVars) -> (r: Vec<StartupItem>)
        ensures
            short_items(r@, short_listing_rows(output@), *env),
    {
        let cs = chars_of(output);
        let ls = lines(&cs);
        let ghost lv = views(ls@);
        let mut found: Vec<StartupItem> = Vec::new();
        if ls.len() <= 1 {
            return found;
        }
        let ghost rows = lv.subrange(1, lv.len() as int);
        let mut k: usize = 1;
        while k < ls.len()
            invariant
                lv == views(ls@),
                rows == lv.subrange(1, lv.len() as int),
                1 <= k <= ls@.len(),
                short_items(found@, short_rows(rows.subrange(0, k - 1)), *env),
            decreases ls@.len() - k,
        {
            let fields = unquote_all(&split_char(&ls[k], ','));
            assert(rows.subrange(0, k as int).drop_last() == rows.subrange(0, k - 1));
            assert(rows.subrange(0, k as int).last() == ls@[k as int]@);
            let ghost before = found@;
            let ghost prev_rows = short_rows(rows.subrange(0, k - 1));
            let ghost new_rows = short_rows(rows.subrange(0, k as int));
            assert(views(fields@) == header_fields(rows.subrange(0, k as int).last()));
            assert(new_rows == match short_row(views(fields@)) {
                Some(t) => prev_rows.push(t),
                None => prev_rows,
            });
            match Self::short_row_item(&fields, env) {
                Some(it) => {
                    found.push(it);
                    assert forall|m: int| 0 <= m < new_rows.len() implies is_task_item(
                        #[trigger] found@[m],
                        new_rows[m],
                        new_rows[m].1,
                        *env,
                    ) by {
                        if m < before.len() {
                            assert(found@[m] == before[m]);
                            assert(new_rows[m] == prev_rows[m]);
                        }
                    }
                },
                None => {},
            }
            k += 1;
        }
        assert(rows.subrange(0, rows.len() as int) == rows);
        found
    }

    /// The autostart entries of a verbose CSV task listing: rows that are not
    /// system tasks and run at logon, boot or startup, sorted by name, one per
    /// name.
    pub fn parse_task_listing(&self, output: &str, env: &EnvVars) -> (r: Vec<StartupItem>)
        ensures
            exists|found: Seq<StartupItem>|
                task_items(found, listing_rows(output@), *env) && dedup_sorted_of(found, r@),
    {
        let cs = chars_of(output);
        let ls = lines(&cs);
        let ghost lv = views(ls@);
        if ls.len() <= 1 {
            let empty: Vec<StartupItem> = Vec::new();
            assert(task_items(Seq::empty(), listing_rows(output@), *env));
            assert(dedup_sorted_of(Seq::empty(), empty@));
            return empty;
        }
        assert(lv[0] == ls@[0]@);
        let hs = unquote_all(&split_char(&ls[0], ','));
        assert(views(hs@) == header_fields(lv[0]));
        let name_needles = vec![chars_of("TaskName")];
        let status_needles = vec![chars_of("Status")];
        let trigger_needles = vec![chars_of("Trigger"), chars_of("Start")];
        assert(views(name_needles@) == seq!["TaskName"@]);
        assert(views(status_needles@) == seq!["Status"@]);
        assert(views(trigger_needles@) == seq!["Trigger"@, "Start"@]);
        let name_i = match find_header(&hs, &name_needles) {
            Some(i) => i,
            None => {
                let empty: Vec<StartupItem> = Vec::new();
                assert(task_items(Seq::empty(), listing_rows(output@), *env));
                assert(dedup_sorted_of(Seq::empty(), empty@));
                return empty;
            },
        };
        let status_i = find_header(&hs, &status_needles);
        let trigger_i = find_header(&hs, &trigger_needles);
        let ghost si = index_or_none(status_i);
        let ghost ti = index_or_none(trigger_i);
        let ghost rows = lv.subrange(1, lv.len() as int);
        let mut found: Vec<StartupItem> = Vec::new();
        let mut k: usize = 1;
        while k < ls.len()
            invariant
                lv == views(ls@),
                rows == lv.subrange(1, lv.len() as int),
                si == index_or_none(status_i),
                ti == index_or_none(trigger_i),
                1 <= k <= ls@.len(),
                task_items(found@, task_rows(rows.subrange(0, k - 1), name_i as int, si, ti), *env),
            decreases ls@.len() - k,
        {
            let fields = csv_fields_of(&ls[k]);
            assert(rows.subrange(0, k as int).drop_last() == rows.subrange(0, k - 1));
            assert(rows.subrange(0, k as int).last() == ls@[k as int]@);
            let ghost before = found@;
            let ghost prev_rows = task_rows(rows.subrange(0, k - 1), name_i as int, si, ti);
            let ghost new_rows = task_rows(rows.subrange(0, k as int), name_i as int, si, ti);
            assert(views(fields@) == csv_fields(rows.subrange(0, k as int).last()));
            assert(new_rows == match task_row(views(fields@), name_i as int, si, ti) {
                Some(t) => prev_rows.push(t),
                None => prev_rows,
            });
            match Self::row_item(&fields, name_i, status_i, trigger_i, env) {
                Some(it) => {
                    found.push(it);
                    assert(new_rows == prev_rows.push(task_row(views(fields@), name_i as int, si, ti)->0));
                    assert forall|m: int| 0 <= m < new_rows.len() implies is_task_item(
                        #[trigger] found@[m],
                        new_rows[m],
                        "Scheduled Task: "@ + new_rows[m].1,
                        *env,
                    ) by {
                        if m < before.len() {
                            assert(found@[m] == before[m]);
                            assert(new_rows[m] == prev_rows[m]);
                        }
                    }
                },
                None => {
                    assert(new_rows == prev_rows);
                },
            }
            k += 1;
        }
        assert(rows.subrange(0, rows.len() as int) == rows);
        let ghost fs = found@;
        let r = sort_dedup_by_name(found);
        assert(task_items(fs, listing_rows(output@), *env));
        r
    }
}

} // verus!
