use vstd::prelude::*;
use vstd::std_specs::iter::IteratorSpec;
use vstd::utf8::{encode_utf8, is_char_boundary};

verus! {

/// Relies on `String::push`: appends one character.
#[verifier::external_body]
pub(crate) fn push_char(s: &mut String, c: char)
    ensures
        final(s)@ == old(s)@.push(c),
{
    s.push(c)
}

/// The characters of `s`, in order.
pub fn chars_of(s: &str) -> (r: Vec<char>)
    ensures
        r@ == s@,
{
    let mut out: Vec<char> = Vec::new();
    let mut it = s.chars();
    loop
        invariant
            it.obeys_prophetic_iter_laws(),
            it.decrease() is Some,
            s@ == out@ + it.remaining(),
        ensures
            out@ == s@,
        decreases it.decrease()->0,
    {
        match it.next() {
            Some(c) => {
                out.push(c);
            },
            None => {
                break;
            },
        }
    }
    out
}

/// A string holding the given characters.
pub fn string_of(v: &[char]) -> (r: String)
    ensures
        r@ == v@,
{
    let mut out = String::new();
    let mut i: usize = 0;
    while i < v.len()
        invariant
            i <= v@.len(),
            out@ == v@.subrange(0, i as int),
        decreases v@.len() - i,
    {
        push_char(&mut out, v[i]);
        assert(v@.subrange(0, i + 1) == v@.subrange(0, i as int).push(v@[i as int]));
        i += 1;
    }
    assert(v@.subrange(0, v@.len() as int) == v@);
    out
}


/// A character that Unicode counts as white space, as `char::is_whitespace` does.
pub open spec fn is_ws(c: char) -> bool {
    let n = c as int;
    (9 <= n <= 13) || n == 32 || n == 0x85 || n == 0xA0 || n == 0x1680 || (0x2000 <= n <= 0x200A)
        || n == 0x2028 || n == 0x2029 || n == 0x202F || n == 0x205F || n == 0x3000
}

/// The code point of `c`.
pub fn code_of(c: char) -> (r: u32)
    ensures
        r as int == c as int,
        r <= 0x10FFFF,
{
    c as u32
}

/// What a trim removes: white space, or one given character.
#[derive(Clone, Copy)]
pub enum Strip {
    Whitespace,
    Only(char),
}

impl Strip {
    pub open spec fn strips(self, c: char) -> bool {
        match self {
            Strip::Whitespace => is_ws(c),
            Strip::Only(x) => c == x,
        }
    }

    pub fn test(&self, c: char) -> (r: bool)
        ensures
            r == self.strips(c),
    {
        match self {
            Strip::Whitespace => {
                let n = code_of(c);
                (9 <= n && n <= 13) || n == 32 || n == 0x85 || n == 0xA0 || n == 0x1680 || (0x2000
                    <= n && n <= 0x200A) || n == 0x2028 || n == 0x2029 || n == 0x202F || n == 0x205F
                    || n == 0x3000
            },
            Strip::Only(x) => c == *x,
        }
    }
}

/// `s` without the leading characters that `k` strips.
pub open spec fn trim_start_by(s: Seq<char>, k: Strip) -> Seq<char>
    decreases s.len(),
{
    if s.len() > 0 && k.strips(s[0]) {
        trim_start_by(s.drop_first(), k)
    } else {
        s
    }
}

/// `s` without the trailing characters that `k` strips.
pub open spec fn trim_end_by(s: Seq<char>, k: Strip) -> Seq<char>
    decreases s.len(),
{
    if s.len() > 0 && k.strips(s.last()) {
        trim_end_by(s.drop_last(), k)
    } else {
        s
    }
}

/// `s` without leading and trailing characters that `k` strips.
pub open spec fn trim_by(s: Seq<char>, k: Strip) -> Seq<char> {
    trim_end_by(trim_start_by(s, k), k)
}

/// `s` without leading and trailing white space, as `str::trim` gives it.
pub open spec fn trim_spec(s: Seq<char>) -> Seq<char> {
    trim_by(s, Strip::Whitespace)
}

/// Removes from the front of `v` (if `front`) and from its back (if `back`)
/// every character that `k` strips.
pub fn trim_chars(v: &[char], k: Strip, front: bool, back: bool) -> (r: Vec<char>)
    ensures
        r@ == (if front && back {
            trim_by(v@, k)
        } else if front {
            trim_start_by(v@, k)
        } else if back {
            trim_end_by(v@, k)
        } else {
            v@
        }),
{
    let n = v.len();
    let mut lo: usize = 0;
    assert(v@.subrange(0, n as int) == v@);
    if front {
        while lo < n && k.test(v[lo])
            invariant
                n == v@.len(),
                lo <= n,
                trim_start_by(v@, k) == trim_start_by(v@.subrange(lo as int, n as int), k),
            decreases n - lo,
        {
            assert(v@.subrange(lo as int, n as int).drop_first() == v@.subrange(lo + 1, n as int));
            lo += 1;
        }
        assert(lo < n ==> v@.subrange(lo as int, n as int)[0] == v@[lo as int]);
    }
    assert(v@.subrange(0, n as int) == v@);
    let mut hi: usize = n;
    if back {
        while hi > lo && k.test(v[hi - 1])
            invariant
                n == v@.len(),
                lo <= hi <= n,
                trim_end_by(v@.subrange(lo as int, n as int), k) == trim_end_by(
                    v@.subrange(lo as int, hi as int),
                    k,
                ),
            decreases hi,
        {
            assert(v@.subrange(lo as int, hi as int).drop_last() == v@.subrange(
                lo as int,
                hi - 1,
            ));
            hi -= 1;
        }
        assert(hi > lo ==> v@.subrange(lo as int, hi as int).last() == v@[hi - 1]);
    }
    let mut out: Vec<char> = Vec::new();
    let mut i: usize = lo;
    while i < hi
        invariant
            n == v@.len(),
            lo <= i <= hi <= n,
            out@ == v@.subrange(lo as int, i as int),
        decreases hi - i,
    {
        out.push(v[i]);
        assert(v@.subrange(lo as int, i + 1) == v@.subrange(lo as int, i as int).push(v@[i as int]));
        i += 1;
    }
    out
}

/// `p` occurs in `s` at position `i`.
pub open spec fn occurs_at(s: Seq<char>, p: Seq<char>, i: int) -> bool {
    0 <= i && i + p.len() <= s.len() && s.subrange(i, i + p.len()) == p
}

pub open spec fn starts_with_spec(s: Seq<char>, p: Seq<char>) -> bool {
    occurs_at(s, p, 0)
}

pub open spec fn ends_with_spec(s: Seq<char>, p: Seq<char>) -> bool {
    occurs_at(s, p, s.len() - p.len())
}

pub open spec fn contains_spec(s: Seq<char>, p: Seq<char>) -> bool {
    exists|i: int| occurs_at(s, p, i)
}

/// Whether `p` occurs in `s` at position `i`.
pub fn occurs_at_exec(s: &[char], p: &[char], i: usize) -> (r: bool)
    ensures
        r == occurs_at(s@, p@, i as int),
{
    if i > s.len() || p.len() > s.len() - i {
        return false;
    }
    let mut j: usize = 0;
    while j < p.len()
        invariant
            i + p@.len() <= s@.len(),
            s@.len() <= usize::MAX,
            j <= p@.len(),
            forall|k: int| 0 <= k < j ==> s@[i + k] == p@[k],
        decreases p@.len() - j,
    {
        if s[i + j] != p[j] {
            assert(s@.subrange(i as int, i + p@.len())[j as int] != p@[j as int]);
            return false;
        }
        j += 1;
    }
    assert(s@.subrange(i as int, i + p@.len()) =~= p@);
    true
}

pub fn starts_with(s: &[char], p: &[char]) -> (r: bool)
    ensures
        r == starts_with_spec(s@, p@),
{
    occurs_at_exec(s, p, 0)
}

pub fn ends_with(s: &[char], p: &[char]) -> (r: bool)
    ensures
        r == ends_with_spec(s@, p@),
{
    if p.len() > s.len() {
        false
    } else {
        occurs_at_exec(s, p, s.len() - p.len())
    }
}

pub fn contains(s: &[char], p: &[char]) -> (r: bool)
    ensures
        r == contains_spec(s@, p@),
{
    if p.len() > s.len() {
        return false;
    }
    let mut i: usize = 0;
    while i <= s.len() - p.len()
        invariant
            p@.len() <= s@.len(),
            i <= s@.len() - p@.len() + 1,
            forall|k: int| 0 <= k < i ==> !occurs_at(s@, p@, k),
        decreases s@.len() - p@.len() + 1 - i,
    {
        if occurs_at_exec(s, p, i) {
            return true;
        }
        if i == s.len() - p.len() {
            return false;
        }
        i += 1;
    }
    false
}

/// The ASCII lower-case code of `c`; other characters keep their code.
pub open spec fn ascii_lower(c: char) -> int {
    if 65 <= (c as int) <= 90 {
        (c as int) + 32
    } else {
        c as int
    }
}

/// Equality up to ASCII case, as `str::eq_ignore_ascii_case` decides it.
pub open spec fn eq_ignore_ascii_case_spec(a: Seq<char>, b: Seq<char>) -> bool {
    a.len() == b.len() && forall|i: int| 0 <= i < a.len() ==> ascii_lower(a[i]) == ascii_lower(b[i])
}

pub fn eq_ignore_ascii_case(a: &[char], b: &[char]) -> (r: bool)
    ensures
        r == eq_ignore_ascii_case_spec(a@, b@),
{
    if a.len() != b.len() {
        return false;
    }
    let mut i: usize = 0;
    while i < a.len()
        invariant
            a@.len() == b@.len(),
            i <= a@.len(),
            forall|k: int| 0 <= k < i ==> ascii_lower(a@[k]) == ascii_lower(b@[k]),
        decreases a@.len() - i,
    {
        let x = code_of(a[i]);
        let y = code_of(b[i]);
        let lx = if 65 <= x && x <= 90 { x + 32 } else { x };
        let ly = if 65 <= y && y <= 90 { y + 32 } else { y };
        if lx != ly {
            return false;
        }
        i += 1;
    }
    true
}

/// `s` cut at every `sep`, as `str::split` with a character gives it: the
/// pieces before the last separator, and the piece being gathered.
pub open spec fn split_fold(s: Seq<char>, sep: char) -> (Seq<Seq<char>>, Seq<char>)
    decreases s.len(),
{
    if s.len() == 0 {
        (Seq::empty(), Seq::empty())
    } else {
        let (done, cur) = split_fold(s.drop_last(), sep);
        if s.last() == sep {
            (done.push(cur), Seq::empty())
        } else {
            (done, cur.push(s.last()))
        }
    }
}

pub open spec fn split_spec(s: Seq<char>, sep: char) -> Seq<Seq<char>> {
    split_fold(s, sep).0.push(split_fold(s, sep).1)
}

/// The views of a sequence of character vectors.
pub open spec fn views(v: Seq<Vec<char>>) -> Seq<Seq<char>> {
    v.map_values(|x: Vec<char>| x@)
}

/// The pieces of `s` between occurrences of `sep`.
pub fn split_char(s: &[char], sep: char) -> (r: Vec<Vec<char>>)
    ensures
        views(r@) == split_spec(s@, sep),
{
    let mut done: Vec<Vec<char>> = Vec::new();
    let mut cur: Vec<char> = Vec::new();
    let mut i: usize = 0;
    while i < s.len()
        invariant
            i <= s@.len(),
            (views(done@), cur@) == split_fold(s@.subrange(0, i as int), sep),
        decreases s@.len() - i,
    {
        assert(s@.subrange(0, i + 1).drop_last() == s@.subrange(0, i as int));
        if s[i] == sep {
            let ghost old_done = done@;
            done.push(cur);
            assert(views(done@) == views(old_done).push(cur@));
            cur = Vec::new();
        } else {
            cur.push(s[i]);
        }
        i += 1;
    }
    assert(s@.subrange(0, s@.len() as int) == s@);
    let ghost old_done = done@;
    done.push(cur);
    assert(views(done@) == views(old_done).push(cur@));
    done
}


/// A line as `str::lines` yields it when a line feed ended it: without a
/// carriage return just before that line feed.
pub open spec fn strip_cr(l: Seq<char>) -> Seq<char> {
    if l.len() > 0 && l.last() == '\r' {
        l.drop_last()
    } else {
        l
    }
}

/// The lines of `s`, as `str::lines` yields them: pieces between line feeds,
/// a carriage return before a line feed dropped, and no empty last line.
pub open spec fn lines_spec(s: Seq<char>) -> Seq<Seq<char>> {
    let parts = split_spec(s, '\n');
    let ended = parts.drop_last().map_values(|l: Seq<char>| strip_cr(l));
    if parts.last().len() == 0 {
        ended
    } else {
        ended.push(parts.last())
    }
}

pub fn lines(s: &[char]) -> (r: Vec<Vec<char>>)
    ensures
        views(r@) == lines_spec(s@),
{
    let parts = split_char(s, '\n');
    let ghost pv = views(parts@);
    assert(pv.len() == parts@.len());
    let mut out: Vec<Vec<char>> = Vec::new();
    let mut i: usize = 0;
    while i < parts.len() - 1
        invariant
            pv == views(parts@),
            parts@.len() >= 1,
            i + 1 <= parts@.len(),
            views(out@) == pv.subrange(0, i as int).map_values(|l: Seq<char>| strip_cr(l)),
        decreases parts@.len() - i,
    {
        let l = &parts[i];
        let ghost before = out@;
        if l.len() > 0 && l[l.len() - 1] == '\r' {
            let mut t = l.clone();
            t.pop();
            out.push(t);
        } else {
            out.push(l.clone());
        }
        assert(views(out@) == views(before).push(strip_cr(pv[i as int])));
        assert(pv.subrange(0, i + 1) == pv.subrange(0, i as int).push(pv[i as int]));
        i += 1;
    }
    assert(pv.drop_last() == pv.subrange(0, i as int));
    let last = &parts[parts.len() - 1];
    if last.len() > 0 {
        let ghost before = out@;
        out.push(last.clone());
        assert(views(out@) == views(before).push(pv.last()));
    }
    out
}

/// The position of the last `c` in `s`, or -1.
pub open spec fn last_index_of(s: Seq<char>, c: char) -> int
    decreases s.len(),
{
    if s.len() == 0 {
        -1
    } else if s.last() == c {
        s.len() - 1
    } else {
        last_index_of(s.drop_last(), c)
    }
}

pub proof fn lemma_last_index_of_range(s: Seq<char>, c: char)
    ensures
        -1 <= last_index_of(s, c) < s.len(),
        last_index_of(s, c) >= 0 ==> s[last_index_of(s, c)] == c,
    decreases s.len(),
{
    if s.len() > 0 && s.last() != c {
        lemma_last_index_of_range(s.drop_last(), c);
    }
}

/// Position of the last `c` in `s`.
pub fn find_last(s: &[char], c: char) -> (r: Option<usize>)
    ensures
        r matches Some(k) ==> k == last_index_of(s@, c),
        r is None <==> last_index_of(s@, c) == -1,
{
    let mut i: usize = s.len();
    assert(s@.subrange(0, i as int) == s@);
    while i > 0
        invariant
            i <= s@.len(),
            last_index_of(s@, c) == last_index_of(s@.subrange(0, i as int), c),
        decreases i,
    {
        assert(s@.subrange(0, i as int).drop_last() == s@.subrange(0, i - 1));
        if s[i - 1] == c {
            return Some(i - 1);
        }
        i -= 1;
    }
    None
}

/// The piece after the last `sep`, as `s.rsplit(sep).next()` gives it.
pub open spec fn last_segment_spec(s: Seq<char>, sep: char) -> Seq<char> {
    s.subrange(last_index_of(s, sep) + 1, s.len() as int)
}

pub fn last_segment(s: &[char], sep: char) -> (r: Vec<char>)
    ensures
        r@ == last_segment_spec(s@, sep),
{
    proof {
        lemma_last_index_of_range(s@, sep);
    }
    let n = s.len();
    let start: usize = match find_last(s, sep) {
        Some(k) => {
            assert(k < n);
            k + 1
        },
        None => 0,
    };
    copy_range(s, start, s.len())
}

/// The characters of `s` from `lo` up to `hi`.
pub fn copy_range(s: &[char], lo: usize, hi: usize) -> (r: Vec<char>)
    requires
        lo <= hi <= s@.len(),
    ensures
        r@ == s@.subrange(lo as int, hi as int),
{
    let mut out: Vec<char> = Vec::new();
    let mut i: usize = lo;
    while i < hi
        invariant
            lo <= i <= hi <= s@.len(),
            out@ == s@.subrange(lo as int, i as int),
        decreases hi - i,
    {
        out.push(s[i]);
        assert(s@.subrange(lo as int, i + 1) == s@.subrange(lo as int, i as int).push(s@[i as int]));
        i += 1;
    }
    out
}

/// A file name without its extension, as `Path::file_stem` gives it: the part
/// before the last dot, unless that dot starts the name.
pub open spec fn file_stem_spec(s: Seq<char>) -> Seq<char> {
    if s == ".."@ {
        s
    } else if last_index_of(s, '.') > 0 {
        s.subrange(0, last_index_of(s, '.'))
    } else {
        s
    }
}

pub fn file_stem(s: &[char]) -> (r: Vec<char>)
    ensures
        r@ == file_stem_spec(s@),
{
    proof {
        lemma_last_index_of_range(s@, '.');
        reveal_strlit("..");
    }
    if s.len() == 2 && s[0] == '.' && s[1] == '.' {
        assert(s@ == ".."@);
        return copy_range(s, 0, s.len());
    }
    assert(s@ != ".."@);
    match find_last(s, '.') {
        Some(k) => {
            if k > 0 {
                copy_range(s, 0, k)
            } else {
                copy_range(s, 0, s.len())
            }
        },
        None => copy_range(s, 0, s.len()),
    }
}

/// `s` without every trailing repetition of `p`, as `str::trim_end_matches`
/// removes them.
pub open spec fn trim_suffix_all(s: Seq<char>, p: Seq<char>) -> Seq<char>
    decreases s.len(),
{
    if p.len() > 0 && ends_with_spec(s, p) {
        trim_suffix_all(s.subrange(0, s.len() - p.len()), p)
    } else {
        s
    }
}

pub fn trim_suffix(s: &[char], p: &[char]) -> (r: Vec<char>)
    ensures
        r@ == trim_suffix_all(s@, p@),
{
    let mut end: usize = s.len();
    assert(s@.subrange(0, end as int) == s@);
    if p.len() == 0 {
        return copy_range(s, 0, end);
    }
    loop
        invariant
            p@.len() > 0,
            end <= s@.len(),
            trim_suffix_all(s@, p@) == trim_suffix_all(s@.subrange(0, end as int), p@),
        decreases end,
    {
        let ghost t = s@.subrange(0, end as int);
        if p.len() <= end && occurs_at_exec(s, p, end - p.len()) {
            assert(t.subrange(end - p@.len(), end as int) == s@.subrange(end - p@.len(), end as int));
            assert(t.subrange(0, end - p@.len()) == s@.subrange(0, end - p@.len()));
            end -= p.len();
        } else {
            assert(p@.len() <= end ==> t.subrange(end - p@.len(), end as int) == s@.subrange(
                end - p@.len(),
                end as int,
            ));
            return copy_range(s, 0, end);
        }
    }
}

/// `s` with each non-overlapping occurrence of `pat`, from the left, replaced
/// by `rep`, as `str::replace` does.
pub open spec fn replace_spec(s: Seq<char>, pat: Seq<char>, rep: Seq<char>) -> Seq<char>
    decreases s.len(),
{
    if s.len() == 0 || pat.len() == 0 {
        s
    } else if occurs_at(s, pat, 0) {
        rep + replace_spec(s.subrange(pat.len() as int, s.len() as int), pat, rep)
    } else {
        seq![s[0]] + replace_spec(s.drop_first(), pat, rep)
    }
}

pub fn replace(s: &[char], pat: &[char], rep: &[char]) -> (r: Vec<char>)
    requires
        pat@.len() > 0,
    ensures
        r@ == replace_spec(s@, pat@, rep@),
{
    let mut out: Vec<char> = Vec::new();
    let mut i: usize = 0;
    assert(s@.subrange(0, s@.len() as int) == s@);
    while i < s.len()
        invariant
            pat@.len() > 0,
            i <= s@.len(),
            replace_spec(s@, pat@, rep@) == out@ + replace_spec(
                s@.subrange(i as int, s@.len() as int),
                pat@,
                rep@,
            ),
        decreases s@.len() - i,
    {
        let ghost t = s@.subrange(i as int, s@.len() as int);
        if occurs_at_exec(s, pat, i) {
            assert(t.subrange(0, pat@.len() as int) == s@.subrange(i as int, i + pat@.len()));
            assert(t.subrange(pat@.len() as int, t.len() as int) == s@.subrange(
                i + pat@.len(),
                s@.len() as int,
            ));
            let mut j: usize = 0;
            let ghost base = out@;
            while j < rep.len()
                invariant
                    j <= rep@.len(),
                    out@ == base + rep@.subrange(0, j as int),
                decreases rep@.len() - j,
            {
                out.push(rep[j]);
                assert(rep@.subrange(0, j + 1) == rep@.subrange(0, j as int).push(rep@[j as int]));
                j += 1;
            }
            assert(rep@.subrange(0, rep@.len() as int) == rep@);
            assert(out@ == base + rep@);
            assert((base + rep@) + replace_spec(t.subrange(pat@.len() as int, t.len() as int), pat@, rep@)
                == base + (rep@ + replace_spec(t.subrange(pat@.len() as int, t.len() as int), pat@, rep@)));
            i += pat.len();
        } else {
            assert(!occurs_at(t, pat@, 0)) by {
                if occurs_at(t, pat@, 0) {
                    assert(t.subrange(0, pat@.len() as int) == s@.subrange(i as int, i + pat@.len()));
                }
            }
            assert(t.drop_first() == s@.subrange(i + 1, s@.len() as int));
            let ghost base = out@;
            out.push(s[i]);
            assert(out@ == base + seq![s@[i as int]]);
            assert((base + seq![t[0]]) + replace_spec(t.drop_first(), pat@, rep@) == base + (seq![t[0]]
                + replace_spec(t.drop_first(), pat@, rep@)));
            i += 1;
        }
    }
    assert(s@.subrange(s@.len() as int, s@.len() as int).len() == 0);
    out
}

/// `a` comes before `b` in the order of `str`'s `Ord`: by code point,
/// character by character, a prefix first.
pub open spec fn lex_lt(a: Seq<char>, b: Seq<char>) -> bool
    decreases a.len(),
{
    if b.len() == 0 {
        false
    } else if a.len() == 0 {
        true
    } else if a[0] != b[0] {
        (a[0] as int) < (b[0] as int)
    } else {
        lex_lt(a.drop_first(), b.drop_first())
    }
}

pub fn lex_less(a: &[char], b: &[char]) -> (r: bool)
    ensures
        r == lex_lt(a@, b@),
{
    let mut i: usize = 0;
    assert(a@.subrange(0, a@.len() as int) == a@);
    assert(b@.subrange(0, b@.len() as int) == b@);
    loop
        invariant
            i <= a@.len(),
            i <= b@.len(),
            lex_lt(a@, b@) == lex_lt(
                a@.subrange(i as int, a@.len() as int),
                b@.subrange(i as int, b@.len() as int),
            ),
        decreases a@.len() - i,
    {
        let ghost x = a@.subrange(i as int, a@.len() as int);
        let ghost y = b@.subrange(i as int, b@.len() as int);
        if i == b.len() {
            return false;
        }
        if i == a.len() {
            return true;
        }
        assert(x[0] == a@[i as int] && y[0] == b@[i as int]);
        if a[i] != b[i] {
            return code_of(a[i]) < code_of(b[i]);
        }
        assert(x.drop_first() == a@.subrange(i + 1, a@.len() as int));
        assert(y.drop_first() == b@.subrange(i + 1, b@.len() as int));
        i += 1;
    }
}

pub proof fn lemma_lex_irreflexive(a: Seq<char>)
    ensures
        !lex_lt(a, a),
    decreases a.len(),
{
    if a.len() > 0 {
        lemma_lex_irreflexive(a.drop_first());
    }
}

/// Two sequences are equal or one comes before the other, never both ways.
pub proof fn lemma_lex_total(a: Seq<char>, b: Seq<char>)
    ensures
        a == b || lex_lt(a, b) || lex_lt(b, a),
        !(lex_lt(a, b) && lex_lt(b, a)),
    decreases a.len(),
{
    if a.len() > 0 && b.len() > 0 && a[0] == b[0] {
        lemma_lex_total(a.drop_first(), b.drop_first());
        if a.drop_first() == b.drop_first() {
            assert(a =~= b) by {
                assert forall|i: int| 0 <= i < a.len() implies a[i] == b[i] by {
                    if i > 0 {
                        assert(a[i] == a.drop_first()[i - 1]);
                        assert(b[i] == b.drop_first()[i - 1]);
                    }
                }
            }
        }
    } else if a.len() == 0 && b.len() == 0 {
        assert(a =~= b);
    }
}

pub proof fn lemma_lex_transitive(a: Seq<char>, b: Seq<char>, c: Seq<char>)
    requires
        lex_lt(a, b),
        lex_lt(b, c),
    ensures
        lex_lt(a, c),
    decreases a.len(),
{
    if a.len() > 0 && a[0] == b[0] && b[0] == c[0] {
        lemma_lex_transitive(a.drop_first(), b.drop_first(), c.drop_first());
    }
}

/// The lower-case form of a text, as `str::to_lowercase` gives it.
pub uninterp spec fn lower_of(s: Seq<char>) -> Seq<char>;

/// Relies on `str::to_lowercase`: its result depends on the characters alone,
/// and an empty text stays empty.
#[verifier::external_body]
pub(crate) fn to_lowercase(s: &str) -> (r: String)
    ensures
        r@ == lower_of(s@),
        s@.len() == 0 ==> r@.len() == 0,
{
    s.to_lowercase()
}


/// Where a text longer than `max_len` bytes is cut: three bytes earlier when
/// there is room for "...".
pub open spec fn cut_at(max_len: int) -> int {
    if max_len > 3 {
        max_len - 3
    } else {
        max_len
    }
}

/// `s` cut to at most `max_len` bytes, with "..." marking a cut where there is
/// room for it.
pub fn truncate_str(s: &str, max_len: usize) -> (r: String)
    requires
        encode_utf8(s@).len() > max_len ==> is_char_boundary(encode_utf8(s@), cut_at(max_len as int)),
    ensures
        encode_utf8(s@).len() <= max_len ==> r@ == s@,
        encode_utf8(s@).len() > max_len && max_len > 3 ==> {
            &&& r@.len() >= 3
            &&& r@.subrange(r@.len() - 3, r@.len() as int) == "..."@
            &&& encode_utf8(r@.subrange(0, r@.len() - 3)) == encode_utf8(s@).subrange(0, max_len - 3)
        },
        encode_utf8(s@).len() > max_len && max_len <= 3 ==> encode_utf8(r@) == encode_utf8(
            s@,
        ).subrange(0, max_len as int),
{
    let n = s.as_bytes().len();
    if n <= max_len {
        String::from_str(s)
    } else if max_len > 3 {
        let (head, _) = s.split_at(max_len - 3);
        assert(encode_utf8(head@) == encode_utf8(s@).subrange(0, max_len - 3));
        let h = String::from_str(head);
        proof {
            reveal_strlit("...");
        }
        let r = h.concat("...");
        assert(r@.subrange(0, r@.len() - 3) == head@);
        r
    } else {
        let (head, _) = s.split_at(max_len);
        assert(encode_utf8(head@) == encode_utf8(s@).subrange(0, max_len as int));
        String::from_str(head)
    }
}

} // verus!
