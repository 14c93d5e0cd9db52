//! How much of a memory changed.

use vstd::prelude::*;
use crate::harness::memory::Memory;
use crate::harness::memory::MemorySectionView;
use crate::harness::memory::model::facts_of;
use crate::harness::memory::model::has_section;
use crate::harness::memory::model::lemma_section_at;
use crate::harness::memory::tool::is_known;
use crate::ratio::capped;
use crate::ratio::Ratio;
use crate::ratio::ratio_of;
use crate::text::text_eq;

verus! {

/// The facts of a memory, told apart by section and text.
pub open spec fn fact_keys(m: Seq<MemorySectionView>) -> Set<(Seq<char>, Seq<char>)> {
    Set::new(|k: (Seq<char>, Seq<char>)| is_known(m, k.0, k.1))
}

/// The facts that came or went, over all facts before and after; zero when
/// there were none at all.
pub open spec fn churn_of(old_m: Seq<MemorySectionView>, new_m: Seq<MemorySectionView>) -> Ratio {
    let a = fact_keys(old_m);
    let b = fact_keys(new_m);
    ratio_of(
        capped(b.difference(a).len() + a.difference(b).len()),
        capped(a.len() + b.len()),
    )
}

/// The views of a list of keys.
pub open spec fn key_views(keys: Seq<(String, String)>) -> Seq<(Seq<char>, Seq<char>)> {
    Seq::new(keys.len(), |i: int| (keys[i].0@, keys[i].1@))
}

/// Whether a key is in a list.
fn has_key(keys: &Vec<(String, String)>, section: &str, text: &str) -> (r: bool)
    ensures
        r == key_views(keys@).contains((section@, text@)),
{
    let mut i: usize = 0;
    while i < keys.len()
        invariant
            i <= keys.len(),
            forall|k: int| 0 <= k < i ==> #[trigger] key_views(keys@)[k] != (section@, text@),
        decreases keys.len() - i,
    {
        assert(key_views(keys@)[i as int] == (keys@[i as int].0@, keys@[i as int].1@));
        if text_eq(keys[i].0.as_str(), section) && text_eq(keys[i].1.as_str(), text) {
            return true;
        }
        i = i + 1;
    }
    false
}

/// The key stands at some place before the given one.
spec fn key_before(
    m: Seq<MemorySectionView>,
    i: int,
    j: int,
    k: (Seq<char>, Seq<char>),
) -> bool {
    exists|a: int, b: int|
        0 <= a < m.len() && 0 <= b < m[a].entries.len() && (a < i || a == i && b < j)
            && m[a].name == k.0 && (#[trigger] m[a].entries[b]).text == k.1
}

/// Lists the facts of a memory, each once.
fn keys_of(memory: &Memory) -> (r: Vec<(String, String)>)
    requires
        memory.wf(),
    ensures
        key_views(r@).no_duplicates(),
        key_views(r@).to_set() == fact_keys(memory@),
{
    let sections = memory.sections();
    let ghost m = memory@;
    let mut keys: Vec<(String, String)> = Vec::new();
    let mut i: usize = 0;
    while i < sections.len()
        invariant
            i <= sections.len(),
            m == memory@,
            m.len() == sections.len(),
            forall|a: int| 0 <= a < m.len() ==> #[trigger] m[a] == sections@[a]@,
            key_views(keys@).no_duplicates(),
            forall|k: (Seq<char>, Seq<char>)|
                #[trigger] key_views(keys@).contains(k) <==> key_before(m, i as int, 0, k),
        decreases sections.len() - i,
    {
        let section = &sections[i];
        let mut j: usize = 0;
        assert(m[i as int] == section@);
        while j < section.entries.len()
            invariant
                i < m.len(),
                m[i as int] == section@,
                j <= section.entries.len(),
                key_views(keys@).no_duplicates(),
                forall|k: (Seq<char>, Seq<char>)|
                    #[trigger] key_views(keys@).contains(k) <==> key_before(
                        m,
                        i as int,
                        j as int,
                        k,
                    ),
            decreases section.entries.len() - j,
        {
            let entry = &section.entries[j];
            let ghost key = (section.name@, entry.text@);
            let ghost before = key_views(keys@);
            assert(m[i as int].entries[j as int] == entry@);
            let known = has_key(&keys, section.name.as_str(), entry.text.as_str());
            if !known {
                keys.push((section.name.clone(), entry.text.clone()));
                assert(key_views(keys@) =~= before.push(key));
            }
            proof {
                let after = key_views(keys@);
                assert forall|k: (Seq<char>, Seq<char>)| #[trigger]
                    after.contains(k) <==> key_before(m, i as int, j + 1, k) by {
                    assert(after.contains(k) <==> before.contains(k) || k == key) by {
                        if !known {
                            if before.contains(k) {
                                let x = choose|x: int| 0 <= x < before.len() && before[x] == k;
                                assert(after[x] == k);
                            }
                            assert(after[before.len() as int] == key);
                        }
                    }
                    if k == key {
                        assert(m[i as int].entries[j as int].text == k.1);
                    }
                    if key_before(m, i as int, j + 1, k) && k != key {
                        let (a, b) = choose|a: int, b: int|
                            0 <= a < m.len() && 0 <= b < m[a].entries.len() && (a < i || a == i && b
                                < j + 1) && m[a].name == k.0 && (#[trigger] m[a].entries[b]).text
                                == k.1;
                        assert(a < i || b < j);
                    }
                }
            }
            j = j + 1;
        }
        proof {
            assert forall|k: (Seq<char>, Seq<char>)| #[trigger]
                key_views(keys@).contains(k) <==> key_before(m, i + 1, 0, k) by {
                if key_before(m, i + 1, 0, k) {
                    let (a, b) = choose|a: int, b: int|
                        0 <= a < m.len() && 0 <= b < m[a].entries.len() && (a < i + 1 || a == i + 1
                            && b < 0) && m[a].name == k.0 && (#[trigger] m[a].entries[b]).text
                            == k.1;
                    assert(a < i || a == i && b < j);
                }
            }
        }
        i = i + 1;
    }
    proof {
        assert forall|k: (Seq<char>, Seq<char>)| #[trigger]
            key_views(keys@).to_set().contains(k) <==> fact_keys(m).contains(k) by {
            if key_before(m, m.len() as int, 0, k) {
                let (a, b) = choose|a: int, b: int|
                    0 <= a < m.len() && 0 <= b < m[a].entries.len() && (a < m.len() || a == m.len()
                        && b < 0) && m[a].name == k.0 && (#[trigger] m[a].entries[b]).text == k.1;
                lemma_section_at(m, a);
                assert(facts_of(m, k.0)[b].text == k.1);
            }
            if is_known(m, k.0, k.1) {
                let b = choose|b: int|
                    0 <= b < facts_of(m, k.0).len() && (#[trigger] facts_of(m, k.0)[b]).text == k.1;
                lemma_known_section(m, k.0, b);
            }
        }
        assert(key_views(keys@).to_set() =~= fact_keys(m));
    }
    keys
}

/// A fact that is found stands in a section of that name.
proof fn lemma_known_section(m: Seq<MemorySectionView>, name: Seq<char>, b: int)
    requires
        0 <= b < facts_of(m, name).len(),
    ensures
        exists|a: int|
            0 <= a < m.len() && (#[trigger] m[a]).name == name && m[a].entries == facts_of(m, name),
{
    assert(has_section(m, name));
}

/// Counts the keys of one list that are not in the other.
fn count_missing(keys: &Vec<(String, String)>, other: &Vec<(String, String)>) -> (r: usize)
    requires
        key_views(keys@).no_duplicates(),
    ensures
        r == key_views(keys@).to_set().difference(key_views(other@).to_set()).len(),
{
    let ghost all = key_views(keys@);
    let ghost others = key_views(other@);
    let ghost mut found: Seq<(Seq<char>, Seq<char>)> = Seq::empty();
    let mut n: usize = 0;
    let mut i: usize = 0;
    while i < keys.len()
        invariant
            i <= keys.len(),
            n <= i,
            all == key_views(keys@),
            others == key_views(other@),
            all.no_duplicates(),
            n == found.len(),
            found.no_duplicates(),
            forall|k: (Seq<char>, Seq<char>)|
                #[trigger] found.contains(k) <==> all.take(i as int).contains(k)
                    && !others.contains(k),
        decreases keys.len() - i,
    {
        let missing = !has_key(other, keys[i].0.as_str(), keys[i].1.as_str());
        proof {
            let key = all[i as int];
            let first = all.take(i as int);
            let next = all.take(i + 1);
            assert(next =~= first.push(key));
            if first.contains(key) {
                let x = choose|x: int| 0 <= x < first.len() && first[x] == key;
                assert(all[x] == all[i as int]);
            }
            let before = found;
            assert(!before.contains(key));
            if missing {
                found = found.push(key);
                assert forall|x: int, y: int|
                    0 <= x < found.len() && 0 <= y < found.len() && x != y implies found[x]
                    != found[y] by {
                    if x < before.len() {
                        assert(before.contains(before[x]));
                    }
                    if y < before.len() {
                        assert(before.contains(before[y]));
                    }
                }
            }
            assert forall|k: (Seq<char>, Seq<char>)| #[trigger]
                found.contains(k) <==> next.contains(k) && !others.contains(k) by {
                broadcast use vstd::seq_lib::group_seq_properties;

                assert(next.contains(k) <==> first.contains(k) || k == key);
                if missing {
                    assert(before.push(key).contains(k) <==> before.contains(k) || k == key);
                }
            }
        }
        if missing {
            n = n + 1;
        }
        i = i + 1;
    }
    proof {
        assert(all.take(all.len() as int) =~= all);
        found.unique_seq_to_set();
        assert(found.to_set() =~= all.to_set().difference(others.to_set()));
    }
    n
}

/// Measures how much of a memory changed.
pub fn churn_between(old_memory: &Memory, new_memory: &Memory) -> (r: Ratio)
    requires
        old_memory.wf(),
        new_memory.wf(),
    ensures
        r == churn_of(old_memory@, new_memory@),
{
    let old_keys = keys_of(old_memory);
    let new_keys = keys_of(new_memory);
    let added: usize = count_missing(&new_keys, &old_keys);
    let removed: usize = count_missing(&old_keys, &new_keys);
    proof {
        key_views(old_keys@).unique_seq_to_set();
        key_views(new_keys@).unique_seq_to_set();
    }
    Ratio::of(
        (added as u64).saturating_add(removed as u64),
        (old_keys.len() as u64).saturating_add(new_keys.len() as u64),
    )
}

} // verus!
