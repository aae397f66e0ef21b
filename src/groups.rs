use vstd::prelude::*;

use crate::item::StartupItem;
use crate::source_type::SourceType;
use crate::text::{chars_of, lemma_lex_transitive, lex_less, lex_lt, lower_of, to_lowercase};

verus! {

broadcast use {vstd::seq_lib::to_multiset_insert, vstd::seq_lib::to_multiset_build, vstd::seq_lib::to_multiset_len};

/// The sort key of an entry: its name in lower case.
pub open spec fn name_key(i: StartupItem) -> Seq<char> {
    lower_of(i.name@)
}

/// Keys never decrease along `s`.
pub open spec fn sorted_by_key(s: Seq<StartupItem>) -> bool {
    forall|a: int, b: int| 0 <= a < b < s.len() ==> !lex_lt(name_key(s[b]), name_key(s[a]))
}

/// The entries of `s` whose key is `k`, in order.
pub open spec fn with_key(s: Seq<StartupItem>, k: Seq<char>) -> Seq<StartupItem> {
    s.filter(key_is(k))
}

/// Whether an entry's key is `k`.
pub open spec fn key_is(k: Seq<char>) -> spec_fn(StartupItem) -> bool {
    |i: StartupItem| name_key(i) == k
}

/// The entries of `items` from source `t`, in order.
pub open spec fn of_source(items: Seq<StartupItem>, t: SourceType) -> Seq<StartupItem> {
    items.filter(|i: StartupItem| i.source == t)
}

/// The entries sorted by their names in lower case; entries with equal keys
/// keep their order.
pub fn sort_by_lower_name(items: Vec<StartupItem>) -> (r: Vec<StartupItem>)
    ensures
        r@.to_multiset() == items@.to_multiset(),
        sorted_by_key(r@),
        forall|k: Seq<char>| #[trigger] with_key(r@, k) == with_key(items@, k),
{
    let mut out: Vec<StartupItem> = Vec::new();
    let mut keys: Vec<Vec<char>> = Vec::new();
    let mut j: usize = 0;
    assert(out@ =~= items@.subrange(0, 0));
    while j < items.len()
        invariant
            j <= items@.len(),
            keys@.len() == out@.len(),
            forall|k: int| 0 <= k < out@.len() ==> #[trigger] keys@[k]@ == name_key(out@[k]),
            sorted_by_key(out@),
            out@.to_multiset() == items@.subrange(0, j as int).to_multiset(),
            forall|k: Seq<char>| #[trigger] with_key(out@, k) == with_key(items@.subrange(0, j as int), k),
        decreases items@.len() - j,
    {
        let key = chars_of(to_lowercase(items[j].name.as_str()).as_str());
        let ghost x = items@[j as int];
        let mut p: usize = 0;
        while p < out.len() && !lex_less(&key, &keys[p])
            invariant
                keys@.len() == out@.len(),
                forall|k: int| 0 <= k < out@.len() ==> #[trigger] keys@[k]@ == name_key(out@[k]),
                key@ == name_key(x),
                p <= out@.len(),
                forall|k: int| 0 <= k < p ==> !lex_lt(name_key(x), #[trigger] name_key(out@[k])),
            decreases out@.len() - p,
        {
            p += 1;
        }
        let ghost o = out@;
        let ghost ok = keys@;
        proof {
            assert forall|a: int, b: int| 0 <= a < b < o.insert(p as int, x).len() implies !lex_lt(
                name_key(o.insert(p as int, x)[b]),
                name_key(o.insert(p as int, x)[a]),
            ) by {
                let n = o.insert(p as int, x);
                if b < p {
                    assert(n[a] == o[a] && n[b] == o[b]);
                } else if a < p && b == p {
                    assert(n[a] == o[a]);
                } else if a < p && b > p {
                    assert(n[a] == o[a] && n[b] == o[b - 1]);
                    // x sorts before o[p] (if any), so o[b-1] is not below o[a].
                    if lex_lt(name_key(o[b - 1]), name_key(o[a])) {
                        assert(lex_lt(name_key(x), name_key(o[p as int])));
                        if b - 1 > p {
                            if lex_lt(name_key(o[b - 1]), name_key(x)) {
                                lemma_lex_transitive(name_key(o[b - 1]), name_key(x), name_key(o[p as int]));
                            }
                        }
                        crate::text::lemma_lex_total(name_key(o[b - 1]), name_key(x));
                        if name_key(o[b - 1]) == name_key(x) {
                        } else if lex_lt(name_key(o[b - 1]), name_key(x)) {
                            if b - 1 == p {
                                crate::text::lemma_lex_total(name_key(x), name_key(o[p as int]));
                            }
                        }
                    }
                } else if a == p {
                    assert(n[b] == o[b - 1]);
                    assert(lex_lt(name_key(x), name_key(o[p as int])));
                    if b - 1 > p {
                        if lex_lt(name_key(o[b - 1]), name_key(x)) {
                            lemma_lex_transitive(name_key(o[b - 1]), name_key(x), name_key(o[p as int]));
                        }
                    } else {
                        crate::text::lemma_lex_total(name_key(x), name_key(o[p as int]));
                    }
                } else {
                    assert(n[a] == o[a - 1] && n[b] == o[b - 1]);
                }
            }
            assert(items@.subrange(0, j + 1) == items@.subrange(0, j as int).push(x));
            assert forall|k: Seq<char>| #[trigger] with_key(o.insert(p as int, x), k) == with_key(
                items@.subrange(0, j + 1),
                k,
            ) by {
                let f = key_is(k);
                assert(with_key(o, k) == with_key(items@.subrange(0, j as int), k));
                items@.subrange(0, j as int).lemma_filter_push(x, f);
                if name_key(x) == k {
                    assert forall|m: int| p <= m < o.len() implies !f(#[trigger] o[m]) by {
                        assert(lex_lt(name_key(x), name_key(o[p as int])));
                        if m == p {
                            crate::text::lemma_lex_irreflexive(name_key(x));
                        }
                    }
                    crate::order::lemma_filter_insert_last(o, p as int, x, f);
                } else {
                    crate::order::lemma_filter_insert_rejected(o, p as int, x, f);
                }
            }
        }
        let item = items[j].duplicate();
        out.insert(p, item);
        keys.insert(p, key);
        assert(out@ == o.insert(p as int, x));
        assert(keys@ == ok.insert(p as int, key));
        assert forall|k: int| 0 <= k < out@.len() implies #[trigger] keys@[k]@ == name_key(out@[k]) by {
            if k < p {
                assert(keys@[k] == ok[k] && out@[k] == o[k]);
            } else if k > p {
                assert(keys@[k] == ok[k - 1] && out@[k] == o[k - 1]);
            }
        }
        j += 1;
    }
    assert(items@.subrange(0, items@.len() as int) == items@);
    out
}


/// `g` holds, for each source type in declared order that has entries, its
/// entries sorted by lower-case name, those of one name in scan order.
pub open spec fn grouped(items: Seq<StartupItem>, g: Seq<(SourceType, Vec<StartupItem>)>) -> bool {
    &&& forall|a: int, b: int| 0 <= a < b < g.len() ==> g[a].0.rank() < g[b].0.rank()
    &&& forall|k: int|
        #![trigger g[k]]
        0 <= k < g.len() ==> {
            &&& g[k].1@.len() > 0
            &&& g[k].1@.to_multiset() == of_source(items, g[k].0).to_multiset()
            &&& sorted_by_key(g[k].1@)
            &&& forall|key: Seq<char>| #[trigger] with_key(g[k].1@, key) == with_key(of_source(items, g[k].0), key)
        }
    &&& forall|t: SourceType|
        #![trigger of_source(items, t)]
        of_source(items, t).len() > 0 ==> exists|k: int| 0 <= k < g.len() && g[k].0 == t
}

/// The entries of `items` from source `t`, in order.
pub fn collect_source(items: &Vec<StartupItem>, t: SourceType) -> (r: Vec<StartupItem>)
    ensures
        r@ == of_source(items@, t),
{
    let mut out: Vec<StartupItem> = Vec::new();
    let mut i: usize = 0;
    while i < items.len()
        invariant
            i <= items@.len(),
            out@ == of_source(items@.subrange(0, i as int), t),
        decreases items@.len() - i,
    {
        proof {
            let pre = items@.subrange(0, i as int);
            assert(items@.subrange(0, i + 1) == pre.push(items@[i as int]));
            pre.lemma_filter_push(items@[i as int], |x: StartupItem| x.source == t);
        }
        if items[i].source == t {
            out.push(items[i].duplicate());
        }
        i += 1;
    }
    assert(items@.subrange(0, items@.len() as int) == items@);
    out
}

/// The entries grouped by source type in declared order, each group sorted by
/// lower-case name; source types without entries have no group.
pub fn group_items(items: &Vec<StartupItem>) -> (r: Vec<(SourceType, Vec<StartupItem>)>)
    ensures
        grouped(items@, r@),
{
    let all = SourceType::all();
    let mut g: Vec<(SourceType, Vec<StartupItem>)> = Vec::new();
    let mut i: usize = 0;
    while i < all.len()
        invariant
            all@ == SourceType::all_spec(),
            i <= 9,
            forall|k: int| 0 <= k < g@.len() ==> #[trigger] g@[k].0.rank() < i,
            forall|a: int, b: int| 0 <= a < b < g@.len() ==> g@[a].0.rank() < g@[b].0.rank(),
            forall|k: int|
                #![trigger g@[k]]
                0 <= k < g@.len() ==> {
                    &&& g@[k].1@.len() > 0
                    &&& g@[k].1@.to_multiset() == of_source(items@, g@[k].0).to_multiset()
                    &&& sorted_by_key(g@[k].1@)
                    &&& forall|key: Seq<char>| #[trigger] with_key(g@[k].1@, key) == with_key(of_source(items@, g@[k].0), key)
                },
            forall|t: SourceType|
                #![trigger of_source(items@, t)]
                t.rank() < i && of_source(items@, t).len() > 0 ==> exists|k: int| 0 <= k < g@.len() && g@[k].0 == t,
        decreases 9 - i,
    {
        let t = all[i];
        assert(t.rank() == i);
        let members = collect_source(items, t);
        let sorted = sort_by_lower_name(members);
        if sorted.len() > 0 {
            let ghost g0 = g@;
            g.push((t, sorted));
            assert forall|k: int| 0 <= k < g@.len() implies #[trigger] g@[k].0.rank() < i + 1 by {
                if k < g0.len() {
                    assert(g@[k] == g0[k]);
                }
            }
            assert forall|t2: SourceType|
                #![trigger of_source(items@, t2)]
                t2.rank() < i + 1 && of_source(items@, t2).len() > 0 implies exists|k: int|
                    0 <= k < g@.len() && g@[k].0 == t2 by {
                if t2.rank() < i {
                    let k = choose|k: int| 0 <= k < g0.len() && g0[k].0 == t2;
                    assert(g@[k] == g0[k]);
                } else {
                    assert(g@[g0.len() as int].0 == t2);
                }
            }
        } else {
            assert(sorted@.to_multiset().len() == 0);
            assert forall|t2: SourceType|
                #![trigger of_source(items@, t2)]
                t2.rank() < i + 1 && of_source(items@, t2).len() > 0 implies exists|k: int|
                    0 <= k < g@.len() && g@[k].0 == t2 by {
                if t2.rank() == i {
                    assert(t2 == t);
                    assert(of_source(items@, t).to_multiset().len() == of_source(items@, t).len());
                }
            }
        }
        i += 1;
    }
    proof {
        assert forall|t: SourceType|
            #![trigger of_source(items@, t)]
            of_source(items@, t).len() > 0 implies exists|k: int| 0 <= k < g@.len() && g@[k].0 == t by {
            assert(t.rank() < 9);
        }
    }
    g
}

} // verus!
