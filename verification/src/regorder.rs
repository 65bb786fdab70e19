use vstd::prelude::*;
use std::collections::BTreeMap;
use vstd::std_specs::btree::spec_keys_iter;
use vstd::std_specs::iter::IteratorSpec;
use vstd::std_specs::cmp::OrdSpec;
use crate::epoll::{entries_map, lemma_entries_map, sorted_fds, EpollEntry, EpollEvent};

verus! {

broadcast use {vstd::std_specs::btree::group_btree_axioms, vstd::laws_cmp::group_laws_cmp};

/// `a` comes before `b` in the order of `K`.
spec fn before<K: Ord>(a: K, b: K) -> bool {
    a.cmp_spec(&b) is Less
}

/// The keys of `m` in increasing order.
fn sorted_keys<V>(m: &BTreeMap<usize, V>) -> (r: Vec<usize>)
    ensures
        forall|i: int, j: int| 0 <= i < j < r@.len() ==> r@[i] < r@[j],
        forall|k: usize| m@.contains_key(k) <==> r@.contains(k),
{
    let ghost ks = spec_keys_iter(m).remaining();
    let mut out: Vec<usize> = Vec::new();
    for k in it: m.keys()
        invariant
            it.seq() == ks,
            out@.len() == it.index(),
            forall|i: int| 0 <= i < it.index() ==> out@[i] == *ks[i],
    {
        out.push(*k);
    }
    proof {
        assert(out@ =~= ks.map_values(|x: &usize| *x));
        assert(ks.unref().to_set() == m@.dom());
        assert(vstd::laws_cmp::obeys_cmp::<usize>());
        assert(vstd::laws_cmp::obeys_cmp::<&usize>());
        assert(vstd::std_specs::btree::increasing_seq(ks));
        vstd::std_specs::btree::axiom_increasing_seq_meaning::<&usize>(ks);
        assert forall|i: int, j: int| 0 <= i < j < out@.len() implies out@[i] < out@[j] by {
            assert(before::<&usize>(ks[i], ks[j]));
        }
        assert forall|k: usize| m@.contains_key(k) <==> out@.contains(k) by {
            if m@.contains_key(k) {
                assert(ks.unref().to_set().contains(k));
                let i = choose|i: int| 0 <= i < ks.unref().len() && ks.unref()[i] == k;
                assert(out@[i] == k);
            }
            if out@.contains(k) {
                let i = choose|i: int| 0 <= i < out@.len() && out@[i] == k;
                assert(ks.unref()[i] == k);
                assert(ks.unref().contains(k));
            }
        }
    }
    out
}

/// The registrations of `m` in increasing descriptor order.
pub fn sorted_registrations(m: &BTreeMap<usize, EpollEvent>) -> (r: Vec<EpollEntry>)
    ensures
        sorted_fds(r@),
        entries_map(r@) == m@,
{
    let keys = sorted_keys(m);
    let mut out: Vec<EpollEntry> = Vec::new();
    let mut i: usize = 0;
    while i < keys.len()
        invariant
            i <= keys@.len(),
            out@.len() == i,
            forall|a: int, b: int| 0 <= a < b < keys@.len() ==> keys@[a] < keys@[b],
            forall|k: usize| m@.contains_key(k) <==> keys@.contains(k),
            forall|j: int| 0 <= j < i ==> #[trigger] out@[j] == (EpollEntry { fd: keys@[j], event: m@[keys@[j]] }),
        decreases keys@.len() - i,
    {
        let k = keys[i];
        assert(keys@.contains(k));
        let ev = match m.get(&k) {
            Some(e) => *e,
            None => {
                assert(false);
                EpollEvent { events: 0, data: 0 }
            },
        };
        out.push(EpollEntry { fd: k, event: ev });
        i += 1;
    }
    proof {
        assert(out@.len() == keys@.len());
        assert(sorted_fds(out@)) by {
            assert forall|a: int, b: int| 0 <= a < b < out@.len() implies out@[a].fd < out@[b].fd by {
                assert(out@[a].fd == keys@[a] && out@[b].fd == keys@[b]);
            }
        }
        lemma_entries_map(out@);
        assert forall|k: usize| #[trigger] entries_map(out@).contains_key(k) == m@.contains_key(k) by {
            if m@.contains_key(k) {
                assert(keys@.contains(k));
                let j = choose|j: int| 0 <= j < keys@.len() && keys@[j] == k;
                assert(out@[j] == EpollEntry { fd: keys@[j], event: m@[keys@[j]] });
                assert(out@[j].fd == k);
            }
            if entries_map(out@).contains_key(k) {
                let j = choose|j: int| 0 <= j < out@.len() && out@[j].fd == k;
                assert(out@[j] == EpollEntry { fd: keys@[j], event: m@[keys@[j]] });
                assert(keys@.contains(k));
            }
        }
        assert forall|k: usize| #[trigger] entries_map(out@).contains_key(k) implies entries_map(out@)[k]
            == m@[k] by {
            let j = choose|j: int| 0 <= j < out@.len() && out@[j].fd == k;
            assert(out@[j] == EpollEntry { fd: keys@[j], event: m@[keys@[j]] });
        }
        assert(entries_map(out@) =~= m@);
    }
    out
}

} // verus!
