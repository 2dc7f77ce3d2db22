use vstd::prelude::*;

use crate::capture::{pair_view, pair_views};
use crate::paths::{cache_path, cache_path_of};
use crate::text::same_str;

verus! {

/// The output directory that each name ends with when the records are taken in order:
/// a later record for a name replaces an earlier one.
pub open spec fn out_dirs_of(records: Seq<(Seq<char>, Seq<char>)>) -> Map<Seq<char>, Seq<char>>
    decreases records.len(),
{
    if records.len() == 0 {
        Map::empty()
    } else {
        out_dirs_of(records.drop_last()).insert(records.last().0, records.last().1)
    }
}

/// `t` lists each key of `m` once, with its value, and nothing else.
pub open spec fn lists_map(t: Seq<(Seq<char>, Seq<char>)>, m: Map<Seq<char>, Seq<char>>) -> bool {
    &&& forall|i: int, j: int| 0 <= i < j < t.len() ==> #[trigger] t[i].0 != #[trigger] t[j].0
    &&& forall|i: int|
        0 <= i < t.len() ==> m.contains_key(#[trigger] t[i].0) && m[t[i].0] == t[i].1
    &&& forall|k: Seq<char>| #[trigger]
        m.contains_key(k) ==> exists|i: int| 0 <= i < t.len() && #[trigger] t[i].0 == k
}

/// `t` with the entry of name `n` given the value `d`, or with `(n, d)` added at the
/// end where no entry has that name.
pub open spec fn upsert(t: Seq<(Seq<char>, Seq<char>)>, n: Seq<char>, d: Seq<char>) -> Seq<
    (Seq<char>, Seq<char>),
> {
    if exists|i: int| 0 <= i < t.len() && #[trigger] t[i].0 == n {
        let i = choose|i: int| 0 <= i < t.len() && #[trigger] t[i].0 == n;
        t.update(i, (n, d))
    } else {
        t.push((n, d))
    }
}

/// The records folded into a table: one entry per name, in the order in which the
/// names first appear, each with the last output directory recorded for it.
pub open spec fn latest_of(records: Seq<(Seq<char>, Seq<char>)>) -> Seq<(Seq<char>, Seq<char>)>
    decreases records.len(),
{
    if records.len() == 0 {
        Seq::empty()
    } else {
        upsert(latest_of(records.drop_last()), records.last().0, records.last().1)
    }
}

/// Upserting into a table that lists a map lists the map with the same insertion.
pub proof fn lemma_upsert_lists(
    t: Seq<(Seq<char>, Seq<char>)>,
    m: Map<Seq<char>, Seq<char>>,
    n: Seq<char>,
    d: Seq<char>,
)
    requires
        lists_map(t, m),
    ensures
        lists_map(upsert(t, n, d), m.insert(n, d)),
{
    let m2 = m.insert(n, d);
    let tv = upsert(t, n, d);
    if exists|i: int| 0 <= i < t.len() && #[trigger] t[i].0 == n {
        let j = choose|i: int| 0 <= i < t.len() && #[trigger] t[i].0 == n;
        assert forall|a: int| 0 <= a < tv.len() implies #[trigger] tv[a].0 == t[a].0 by {}
        assert forall|a: int| 0 <= a < tv.len() implies m2.contains_key(#[trigger] tv[a].0)
            && m2[tv[a].0] == tv[a].1 by {
            if a != j {
                assert(t[a].0 != t[j].0);
            }
        }
        assert forall|k: Seq<char>| #[trigger] m2.contains_key(k) implies exists|a: int|
            0 <= a < tv.len() && #[trigger] tv[a].0 == k by {
            if k == n {
                assert(tv[j].0 == k);
            } else {
                assert(m.contains_key(k));
                let a = choose|a: int| 0 <= a < t.len() && #[trigger] t[a].0 == k;
                assert(tv[a].0 == k);
            }
        }
    } else {
        assert(!m.contains_key(n));
        assert forall|k: Seq<char>| #[trigger] m2.contains_key(k) implies exists|a: int|
            0 <= a < tv.len() && #[trigger] tv[a].0 == k by {
            if k == n {
                assert(tv[t.len() as int].0 == k);
            } else {
                assert(m.contains_key(k));
                let a = choose|a: int| 0 <= a < t.len() && #[trigger] t[a].0 == k;
                assert(tv[a].0 == k);
            }
        }
    }
}

/// The table of the records lists, once each, every name that they hold, with the
/// output directory that the name ends with.
pub proof fn lemma_latest_lists(records: Seq<(Seq<char>, Seq<char>)>)
    ensures
        lists_map(latest_of(records), out_dirs_of(records)),
    decreases records.len(),
{
    if records.len() > 0 {
        lemma_latest_lists(records.drop_last());
        lemma_upsert_lists(
            latest_of(records.drop_last()),
            out_dirs_of(records.drop_last()),
            records.last().0,
            records.last().1,
        );
    }
}

/// One entry for each name among the records, with the output directory of the last
/// record of that name.
pub fn latest_out_dirs(records: &Vec<(String, String)>) -> (r: Vec<(String, String)>)
    ensures
        pair_views(r@) == latest_of(pair_views(records@)),
        lists_map(pair_views(r@), out_dirs_of(pair_views(records@))),
{
    let ghost recs = pair_views(records@);
    let mut t: Vec<(String, String)> = Vec::new();
    let mut i: usize = 0;
    assert(recs.subrange(0, 0) =~= Seq::<(Seq<char>, Seq<char>)>::empty());
    while i < records.len()
        invariant
            i <= records@.len(),
            recs == pair_views(records@),
            lists_map(pair_views(t@), out_dirs_of(recs.subrange(0, i as int))),
            pair_views(t@) == latest_of(recs.subrange(0, i as int)),
        decreases records@.len() - i,
    {
        let ghost m = out_dirs_of(recs.subrange(0, i as int));
        assert(recs.subrange(0, i + 1).drop_last() =~= recs.subrange(0, i as int));
        let name = &records[i].0;
        let dir = &records[i].1;
        let ghost m2 = m.insert(name@, dir@);
        assert(out_dirs_of(recs.subrange(0, i + 1)) == m2);
        let mut j: usize = 0;
        let mut found = false;
        while j < t.len() && !found
            invariant
                j <= t@.len(),
                found ==> j < t@.len() && t@[j as int].0@ == name@,
                forall|k: int| 0 <= k < j ==> t@[k].0@ != name@,
            decreases t@.len() - j + if found { 0int } else { 1int },
        {
            if same_str(t[j].0.as_str(), name.as_str()) {
                found = true;
            } else {
                j += 1;
            }
        }
        let ghost before = pair_views(t@);
        if found {
            t.set(j, (name.clone(), dir.clone()));
            assert(pair_views(t@) =~= before.update(j as int, (name@, dir@)));
            proof {
                assert(before[j as int].0 == name@);
                let c = choose|a: int| 0 <= a < before.len() && #[trigger] before[a].0 == name@;
                if c != j {
                    if c < j {
                        assert(before[c].0 != before[j as int].0);
                    } else {
                        assert(before[j as int].0 != before[c].0);
                    }
                }
            }
        } else {
            t.push((name.clone(), dir.clone()));
            assert(pair_views(t@) =~= before.push((name@, dir@)));
            assert forall|a: int| 0 <= a < before.len() implies #[trigger] before[a].0 != name@ by {
                assert(before[a].0 == t@[a].0@);
            }
        }
        assert(pair_views(t@) == upsert(before, name@, dir@));
        proof {
            lemma_upsert_lists(before, m, name@, dir@);
        }
        assert(lists_map(pair_views(t@), m2));
        i += 1;
    }
    assert(recs.subrange(0, records@.len() as int) =~= recs);
    t
}

/// For each (name, output directory) entry, the file to write and what it holds.
pub open spec fn cache_files_of(
    build_dir: Seq<char>,
    prefix: Seq<char>,
    entries: Seq<(Seq<char>, Seq<char>)>,
) -> Seq<(Seq<char>, Seq<char>)> {
    entries.map_values(
        |e: (Seq<char>, Seq<char>)| (cache_path_of(build_dir, prefix, e.0), e.1),
    )
}

/// The files that keep the output directories for the native build: for each name, one
/// file under the build directory that holds the last output directory recorded for it.
pub fn cache_files(build_dir: &str, prefix: &str, records: &Vec<(String, String)>) -> (r: Vec<
    (String, String),
>)
    ensures
        pair_views(r@) == cache_files_of(build_dir@, prefix@, latest_of(pair_views(records@))),
{
    let latest = latest_out_dirs(records);
    let ghost entries = pair_views(latest@);
    let mut r: Vec<(String, String)> = Vec::new();
    let mut i: usize = 0;
    while i < latest.len()
        invariant
            i <= latest@.len(),
            entries == pair_views(latest@),
            pair_views(r@) == cache_files_of(build_dir@, prefix@, entries.subrange(0, i as int)),
        decreases latest@.len() - i,
    {
        let path = cache_path(build_dir, prefix, latest[i].0.as_str());
        let ghost prev = pair_views(r@);
        r.push((path, latest[i].1.clone()));
        assert(pair_views(r@) =~= prev.push(pair_view(r@.last())));
        assert(cache_files_of(build_dir@, prefix@, entries.subrange(0, i + 1)) =~= cache_files_of(
            build_dir@,
            prefix@,
            entries.subrange(0, i as int),
        ).push((cache_path_of(build_dir@, prefix@, entries[i as int].0), entries[i as int].1)));
        i += 1;
    }
    assert(entries.subrange(0, latest@.len() as int) =~= entries);
    r
}

/// A later record for a name overrides an earlier one: after two records of one name,
/// the name's output directory is the second one's.
pub proof fn lemma_last_record_wins(
    records: Seq<(Seq<char>, Seq<char>)>,
    name: Seq<char>,
    first: Seq<char>,
    second: Seq<char>,
)
    ensures
        out_dirs_of(records.push((name, first)).push((name, second)))[name] == second,
        exists|i: int|
            0 <= i < latest_of(records.push((name, first)).push((name, second))).len()
                && #[trigger] latest_of(records.push((name, first)).push((name, second)))[i]
                == (name, second),
        forall|i: int|
            0 <= i < latest_of(records.push((name, first)).push((name, second))).len()
                && #[trigger] latest_of(records.push((name, first)).push((name, second)))[i].0
                == name ==> latest_of(records.push((name, first)).push((name, second)))[i].1
                == second,
{
    let s = records.push((name, first)).push((name, second));
    assert(s.drop_last() == records.push((name, first)));
    lemma_latest_lists(s);
    let t = latest_of(s);
    assert(out_dirs_of(s).contains_key(name));
    let i = choose|i: int| 0 <= i < t.len() && #[trigger] t[i].0 == name;
    assert(t[i] == (name, second));
}


/// The name of a record that no later record repeats ends with that record's output
/// directory.
pub proof fn lemma_out_dirs_last(records: Seq<(Seq<char>, Seq<char>)>, i: int)
    requires
        0 <= i < records.len(),
        forall|j: int| i < j < records.len() ==> #[trigger] records[j].0 != records[i].0,
    ensures
        out_dirs_of(records).contains_key(records[i].0),
        out_dirs_of(records)[records[i].0] == records[i].1,
    decreases records.len(),
{
    if i < records.len() - 1 {
        let prev = records.drop_last();
        assert forall|j: int| i < j < prev.len() implies #[trigger] prev[j].0 != prev[i].0 by {
            assert(prev[j] == records[j]);
        }
        lemma_out_dirs_last(prev, i);
        assert(records.last().0 != records[i].0);
    }
}

/// The last record wins, whatever stands between: where no later record repeats the
/// name of record `i`, the table holds exactly one entry of that name, and it holds
/// record `i`'s output directory; every earlier record of the name is overwritten.
pub proof fn lemma_last_of_name_wins(records: Seq<(Seq<char>, Seq<char>)>, i: int)
    requires
        0 <= i < records.len(),
        forall|j: int| i < j < records.len() ==> #[trigger] records[j].0 != records[i].0,
    ensures
        exists|k: int|
            0 <= k < latest_of(records).len() && #[trigger] latest_of(records)[k] == records[i],
        forall|k: int|
            0 <= k < latest_of(records).len() && #[trigger] latest_of(records)[k].0
                == records[i].0 ==> latest_of(records)[k].1 == records[i].1,
{
    lemma_out_dirs_last(records, i);
    lemma_latest_lists(records);
    let t = latest_of(records);
    let k = choose|k: int| 0 <= k < t.len() && #[trigger] t[k].0 == records[i].0;
    assert(t[k] == records[i]);
}

} // verus!
