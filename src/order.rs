use vstd::prelude::*;

use crate::item::StartupItem;
use crate::text::{chars_of, lemma_lex_irreflexive, lemma_lex_total, lemma_lex_transitive, lex_less, lex_lt};

verus! {

/// No entry before position `j` of `s` has the name of `s[j]`.
pub open spec fn first_of_name(s: Seq<StartupItem>, j: int) -> bool {
    forall|i: int| 0 <= i < j ==> s[i].name@ != s[j].name@
}

/// Names strictly increase along `r`.
pub open spec fn strictly_sorted_by_name(r: Seq<StartupItem>) -> bool {
    forall|a: int, b: int| 0 <= a < b < r.len() ==> lex_lt(r[a].name@, r[b].name@)
}

/// The position of the first entry of `s` named `n`, or -1.
pub open spec fn first_named(s: Seq<StartupItem>, n: Seq<char>) -> int
    decreases s.len(),
{
    if s.len() == 0 {
        -1
    } else if s[0].name@ == n {
        0
    } else if first_named(s.drop_first(), n) < 0 {
        -1
    } else {
        first_named(s.drop_first(), n) + 1
    }
}

proof fn lemma_first_named(s: Seq<StartupItem>, j: int)
    requires
        0 <= j < s.len(),
        first_of_name(s, j),
    ensures
        first_named(s, s[j].name@) == j,
    decreases s.len(),
{
    if j > 0 {
        let t = s.drop_first();
        assert forall|i: int| 0 <= i < j - 1 implies (#[trigger] t[i]).name@ != t[j - 1].name@ by {
            assert(t[i] == s[i + 1] && t[j - 1] == s[j]);
        }
        lemma_first_named(t, j - 1);
        assert(s[0].name@ != s[j].name@);
    }
}

/// Each entry of `r` is the first entry of `s` with its name.
pub open spec fn from_firsts(s: Seq<StartupItem>, r: Seq<StartupItem>) -> bool {
    forall|k: int|
        #![trigger r[k]]
        0 <= k < r.len() ==> 0 <= first_named(s, r[k].name@) < s.len() && r[k] == s[first_named(
            s,
            r[k].name@,
        )]
}

/// Each name of `s` is the name of an entry of `r`.
pub open spec fn covers_names(s: Seq<StartupItem>, r: Seq<StartupItem>) -> bool {
    forall|j: int|
        #![trigger s[j]]
        0 <= j < s.len() ==> exists|k: int| #![trigger r[k]] 0 <= k < r.len() && r[k].name@ == s[j].name@
}

/// `r` holds, sorted by name, the first entry of `s` with each name.
pub open spec fn dedup_sorted_of(s: Seq<StartupItem>, r: Seq<StartupItem>) -> bool {
    &&& strictly_sorted_by_name(r)
    &&& from_firsts(s, r)
    &&& covers_names(s, r)
}

/// Inserting `x` where all before it come earlier and all after it later
/// keeps names strictly increasing.
proof fn lemma_sorted_insert(o: Seq<StartupItem>, p: int, x: StartupItem)
    requires
        strictly_sorted_by_name(o),
        0 <= p <= o.len(),
        forall|k: int| 0 <= k < p ==> lex_lt(#[trigger] o[k].name@, x.name@),
        forall|k: int| p <= k < o.len() ==> lex_lt(x.name@, #[trigger] o[k].name@),
    ensures
        strictly_sorted_by_name(o.insert(p, x)),
{
    let n = o.insert(p, x);
    assert forall|a: int, b: int| 0 <= a < b < n.len() implies lex_lt(n[a].name@, n[b].name@) by {
        if b < p {
            assert(n[a] == o[a] && n[b] == o[b]);
        } else if a < p && b == p {
            assert(n[a] == o[a]);
        } else if a < p && b > p {
            assert(n[a] == o[a] && n[b] == o[b - 1]);
            lemma_lex_transitive(o[a].name@, x.name@, o[b - 1].name@);
        } else if a == p {
            assert(n[b] == o[b - 1]);
        } else {
            assert(n[a] == o[a - 1] && n[b] == o[b - 1]);
        }
    }
}

/// The position where `key` belongs among strictly increasing `keys`, and
/// whether it is there already.
fn find_slot(keys: &Vec<Vec<char>>, key: &Vec<char>) -> (r: (usize, bool))
    requires
        forall|a: int, b: int| 0 <= a < b < keys@.len() ==> lex_lt(keys@[a]@, keys@[b]@),
    ensures
        r.0 <= keys@.len(),
        forall|k: int| 0 <= k < r.0 ==> lex_lt(#[trigger] keys@[k]@, key@),
        r.1 <==> (r.0 < keys@.len() && keys@[r.0 as int]@ == key@),
        !r.1 ==> forall|k: int| r.0 <= k < keys@.len() ==> lex_lt(key@, #[trigger] keys@[k]@),
{
    let mut p: usize = 0;
    while p < keys.len() && lex_less(&keys[p], key)
        invariant
            p <= keys@.len(),
            forall|k: int| 0 <= k < p ==> lex_lt(#[trigger] keys@[k]@, key@),
        decreases keys@.len() - p,
    {
        p += 1;
    }
    let present = p < keys.len() && vec_eq(&keys[p], key);
    if !present && p < keys.len() {
        proof {
            lemma_lex_total(keys@[p as int]@, key@);
            assert forall|k: int| p <= k < keys@.len() implies lex_lt(key@, #[trigger] keys@[k]@) by {
                if k > p {
                    lemma_lex_transitive(key@, keys@[p as int]@, keys@[k]@);
                }
            }
        }
    }
    (p, present)
}

/// What holds after the first `j` entries of `items` have been absorbed into
/// `out`, whose names `keys` hold: `src[k]` is where `out[k]` came from, and
/// `at[i]` is where the name of `items[i]` stands in `out`.
pub open spec fn absorbed(
    items: Seq<StartupItem>,
    out: Seq<StartupItem>,
    keys: Seq<Vec<char>>,
    j: int,
    src: Seq<int>,
    at: Seq<int>,
) -> bool {
    &&& 0 <= j <= items.len()
    &&& keys.len() == out.len()
    &&& src.len() == out.len()
    &&& at.len() == j
    &&& forall|k: int| 0 <= k < out.len() ==> #[trigger] keys[k]@ == out[k].name@
    &&& strictly_sorted_by_name(out)
    &&& forall|k: int|
        #![trigger src[k]]
        0 <= k < out.len() ==> 0 <= src[k] < j && first_of_name(items, src[k]) && out[k] == items[src[k]]
    &&& forall|i: int|
        #![trigger at[i]]
        0 <= i < j ==> 0 <= at[i] < out.len() && out[at[i]].name@ == items[i].name@
}

/// Inserting `items[j]` at its place keeps what holds, when no entry of its
/// name is in `out`.
proof fn lemma_absorb_insert(
    items: Seq<StartupItem>,
    out: Seq<StartupItem>,
    keys: Seq<Vec<char>>,
    j: int,
    src: Seq<int>,
    at: Seq<int>,
    p: int,
    key: Vec<char>,
)
    requires
        0 <= j < items.len(),
        absorbed(items, out, keys, j, src, at),
        0 <= p <= out.len(),
        key@ == items[j].name@,
        forall|k: int| 0 <= k < p ==> lex_lt(#[trigger] keys[k]@, key@),
        forall|k: int| p <= k < keys.len() ==> lex_lt(key@, #[trigger] keys[k]@),
    ensures
        absorbed(
            items,
            out.insert(p, items[j]),
            keys.insert(p, key),
            j + 1,
            src.insert(p, j),
            at.map_values(|k: int| if k >= p { k + 1 } else { k }).push(p),
        ),
{
    let x = items[j];
    let n = out.insert(p, x);
    let nk = keys.insert(p, key);
    let ns = src.insert(p, j);
    let na = at.map_values(|k: int| if k >= p { k + 1 } else { k }).push(p);
    assert forall|k: int| 0 <= k < p implies lex_lt(#[trigger] out[k].name@, x.name@) by {
        assert(keys[k]@ == out[k].name@);
    }
    assert forall|k: int| p <= k < out.len() implies lex_lt(x.name@, #[trigger] out[k].name@) by {
        assert(keys[k]@ == out[k].name@);
    }
    lemma_sorted_insert(out, p, x);
    assert(first_of_name(items, j)) by {
        assert forall|i: int| 0 <= i < j implies items[i].name@ != x.name@ by {
            if items[i].name@ == x.name@ {
                let k = at[i];
                assert(keys[k]@ == out[k].name@);
                lemma_lex_irreflexive(x.name@);
            }
        }
    }
    assert forall|k: int| 0 <= k < n.len() implies #[trigger] nk[k]@ == n[k].name@ by {
        if k > p {
            assert(nk[k] == keys[k - 1] && n[k] == out[k - 1]);
        } else if k < p {
            assert(nk[k] == keys[k] && n[k] == out[k]);
        }
    }
    assert forall|k: int|
        #![trigger ns[k]]
        0 <= k < n.len() implies 0 <= ns[k] < j + 1 && first_of_name(items, ns[k]) && n[k] == items[ns[k]] by {
        if k < p {
            assert(ns[k] == src[k] && n[k] == out[k]);
        } else if k > p {
            assert(ns[k] == src[k - 1] && n[k] == out[k - 1]);
        }
    }
    assert forall|i: int|
        #![trigger na[i]]
        0 <= i < j + 1 implies 0 <= na[i] < n.len() && n[na[i]].name@ == items[i].name@ by {
        if i < j {
            let k = at[i];
            if k < p {
                assert(n[k] == out[k]);
            } else {
                assert(n[k + 1] == out[k]);
            }
        }
    }
}

/// Adds `items[j]` to `out` unless an entry of its name is there, and gives the
/// updated witnesses.
fn absorb(
    items: &Vec<StartupItem>,
    out: &mut Vec<StartupItem>,
    keys: &mut Vec<Vec<char>>,
    j: usize,
    src: Ghost<Seq<int>>,
    at: Ghost<Seq<int>>,
) -> (r: (Ghost<Seq<int>>, Ghost<Seq<int>>))
    requires
        j < items@.len(),
        absorbed(items@, old(out)@, old(keys)@, j as int, src@, at@),
    ensures
        absorbed(items@, final(out)@, final(keys)@, j + 1, r.0@, r.1@),
{
    let key = chars_of(items[j].name.as_str());
    assert forall|a: int, b: int| 0 <= a < b < keys@.len() implies lex_lt(keys@[a]@, keys@[b]@) by {
        assert(keys@[a]@ == out@[a].name@ && keys@[b]@ == out@[b].name@);
    }
    let (p, present) = find_slot(keys, &key);
    if present {
        assert(keys@[p as int]@ == out@[p as int].name@);
        let ghost na = at@.push(p as int);
        assert forall|i: int|
            #![trigger na[i]]
            0 <= i < j + 1 implies 0 <= na[i] < out@.len() && out@[na[i]].name@ == items@[i].name@ by {
            if i < j {
                assert(na[i] == at@[i]);
            }
        }
        (src, Ghost(na))
    } else {
        proof {
            lemma_absorb_insert(items@, out@, keys@, j as int, src@, at@, p as int, key);
        }
        let ghost ns = src@.insert(p as int, j as int);
        let ghost na = at@.map_values(|k: int| if k >= p { k + 1 } else { k }).push(p as int);
        let item = items[j].duplicate();
        out.insert(p, item);
        keys.insert(p, key);
        (Ghost(ns), Ghost(na))
    }
}

/// Once every entry is absorbed, the witnesses show the result.
proof fn lemma_witnessed(items: Seq<StartupItem>, out: Seq<StartupItem>, keys: Seq<Vec<char>>, src: Seq<int>, at: Seq<int>)
    requires
        absorbed(items, out, keys, items.len() as int, src, at),
    ensures
        dedup_sorted_of(items, out),
{
    assert forall|k: int| #![trigger out[k]] 0 <= k < out.len() implies 0 <= first_named(
        items,
        out[k].name@,
    ) < items.len() && out[k] === items[first_named(items, out[k].name@)] by {
        let j = src[k];
        lemma_first_named(items, j);
    }
    assert forall|i: int| #![trigger items[i]] 0 <= i < items.len() implies exists|k: int|
        #![trigger out[k]]
        0 <= k < out.len() && out[k].name@ == items[i].name@ by {
        let k = at[i];
        assert(0 <= k < out.len() && out[k].name@ == items[i].name@);
    }
    assert(strictly_sorted_by_name(out));
    assert(from_firsts(items, out));
    assert(covers_names(items, out));
}

/// The entries sorted by name, keeping of several with one name the first, as a
/// stable sort followed by removing adjacent duplicates leaves them.
pub fn sort_dedup_by_name(items: Vec<StartupItem>) -> (r: Vec<StartupItem>)
    ensures
        dedup_sorted_of(items@, r@),
{
    let mut out: Vec<StartupItem> = Vec::new();
    let mut keys: Vec<Vec<char>> = Vec::new();
    let mut src: Ghost<Seq<int>> = Ghost(Seq::empty());
    let mut at: Ghost<Seq<int>> = Ghost(Seq::empty());
    let mut j: usize = 0;
    while j < items.len()
        invariant
            absorbed(items@, out@, keys@, j as int, src@, at@),
        decreases items@.len() - j,
    {
        let (s2, a2) = absorb(&items, &mut out, &mut keys, j, src, at);
        src = s2;
        at = a2;
        j += 1;
    }
    proof {
        lemma_witnessed(items@, out@, keys@, src@, at@);
    }
    out
}

/// Whether two character vectors are equal.
pub fn vec_eq(a: &Vec<char>, b: &Vec<char>) -> (r: bool)
    ensures
        r == (a@ == b@),
{
    if a.len() != b.len() {
        return false;
    }
    let mut i: usize = 0;
    while i < a.len()
        invariant
            a@.len() == b@.len(),
            i <= a@.len(),
            forall|k: int| 0 <= k < i ==> a@[k] == b@[k],
        decreases a@.len() - i,
    {
        if a[i] != b[i] {
            return false;
        }
        i += 1;
    }
    assert(a@ =~= b@);
    true
}


/// Inserting an element that `f` rejects leaves what `f` keeps unchanged.
pub proof fn lemma_filter_insert_rejected<A>(s: Seq<A>, p: int, x: A, f: spec_fn(A) -> bool)
    requires
        0 <= p <= s.len(),
        !f(x),
    ensures
        s.insert(p, x).filter(f) == s.filter(f),
    decreases s.len(),
{
    if p == s.len() {
        assert(s.insert(p, x) == s.push(x));
        s.lemma_filter_push(x, f);
    } else {
        let t = s.drop_last();
        lemma_filter_insert_rejected(t, p, x, f);
        assert(s.insert(p, x) == t.insert(p, x).push(s.last()));
        assert(s == t.push(s.last()));
        t.insert(p, x).lemma_filter_push(s.last(), f);
        t.lemma_filter_push(s.last(), f);
    }
}

/// Inserting an element after everything that `f` keeps adds it at the end
/// of what `f` keeps.
pub proof fn lemma_filter_insert_last<A>(s: Seq<A>, p: int, x: A, f: spec_fn(A) -> bool)
    requires
        0 <= p <= s.len(),
        f(x),
        forall|k: int| p <= k < s.len() ==> !f(#[trigger] s[k]),
    ensures
        s.insert(p, x).filter(f) == s.filter(f).push(x),
    decreases s.len(),
{
    if p == s.len() {
        assert(s.insert(p, x) == s.push(x));
        s.lemma_filter_push(x, f);
    } else {
        let t = s.drop_last();
        assert forall|k: int| p <= k < t.len() implies !f(#[trigger] t[k]) by {
            assert(t[k] == s[k]);
        }
        lemma_filter_insert_last(t, p, x, f);
        assert(s.insert(p, x) == t.insert(p, x).push(s.last()));
        assert(s == t.push(s.last()));
        assert(!f(s[s.len() - 1]));
        t.insert(p, x).lemma_filter_push(s.last(), f);
        t.lemma_filter_push(s.last(), f);
    }
}

} // verus!
