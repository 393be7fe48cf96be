//! Properties of the selection pass, stated over its spec model.
use crate::modifier::{
    activate_all, entry_pick, names_of, node_pick, run_entries, selected_names, weights_of, ModifierEntry,
    Modifier, ModifierEntryInner, ModifierGroup, ModifierSingle, Modifiers,
};
use crate::stream::{gate_passes, pick_outcome, stream_period, total_weight};
use vstd::prelude::*;

verus! {

/// The entries with the one at `i` given an activation chance of zero.
pub open spec fn with_zero_chance<M>(entries: Seq<ModifierEntry<M>>, i: int) -> Seq<ModifierEntry<M>> {
    entries.update(i, ModifierEntry { modifier: entries[i].modifier, chance_for_modifier: 0 })
}

proof fn lemma_run_len<M>(s: Seq<ModifierEntry<M>>, seed: Seq<u8>)
    ensures
        run_entries(s, seed).0.len() == s.len(),
    decreases s.len(),
{
    if s.len() > 0 {
        lemma_run_len(s.drop_last(), seed);
    }
}

proof fn lemma_run_step<M>(s: Seq<ModifierEntry<M>>, seed: Seq<u8>, k: int)
    requires
        0 <= k < s.len(),
    ensures
        ({
            let prev = run_entries(s.take(k), seed);
            let cur = entry_pick(s[k], seed, prev.1);
            run_entries(s.take(k + 1), seed) == (prev.0.push(cur.0), cur.1)
        }),
{
    assert(s.take(k + 1).drop_last() =~= s.take(k));
}

/// Running the same entries under the same seed always selects the same
/// names, in the same order.
pub proof fn lemma_apply_deterministic<M>(a: Modifiers<M>, b: Modifiers<M>)
    requires
        a.seed == b.seed,
        a.modifiers@ == b.modifiers@,
    ensures
        selected_names(a.modifiers@, a.seed@) == selected_names(b.modifiers@, b.seed@),
{
}

/// An entry whose chance is zero selects nothing and takes exactly one draw.
pub proof fn lemma_zero_chance_entry<M>(e: ModifierEntry<M>, seed: Seq<u8>, pos: int)
    requires
        e.chance_for_modifier == 0,
    ensures
        entry_pick(e, seed, pos) == (None::<ModifierSingle<M>>, (pos + 1) % stream_period()),
{
}

/// Setting entry `i`'s chance to zero removes its selection under every seed
/// and leaves the entries before it untouched. Where entry `i` took exactly
/// one draw before (its gate failed, or it holds a single leaf), every other
/// entry selects as before, the names are those of before without entry
/// `i`'s, and the app receives the same activations but entry `i`'s.
pub proof fn lemma_zero_chance_independence<M: Modifier<A>, A>(
    entries: Seq<ModifierEntry<M>>,
    seed: Seq<u8>,
    i: int,
    app: A,
)
    requires
        0 <= i < entries.len(),
    ensures
        ({
            let z = with_zero_chance(entries, i);
            let before = run_entries(entries, seed);
            let after = run_entries(z, seed);
            let p = run_entries(entries.take(i), seed).1;
            &&& after.0.len() == entries.len()
            &&& after.0[i] is None
            &&& forall|j: int| 0 <= j < i ==> #[trigger] after.0[j] == before.0[j]
            &&& entry_pick(entries[i], seed, p).1 == (p + 1) % stream_period() ==> {
                &&& after.0 == before.0.update(i, None)
                &&& after.1 == before.1
                &&& selected_names(z, seed) == names_of(before.0.update(i, None))
                &&& activate_all(after.0, app) == activate_all(before.0.update(i, None), app)
            }
        }),
{
    let z = with_zero_chance(entries, i);
    lemma_independence_upto(entries, seed, i, entries.len() as int);
    assert(z.take(entries.len() as int) =~= z);
    assert(entries.take(entries.len() as int) =~= entries);
}

/// The relation between the two runs over their first `k` entries.
proof fn lemma_independence_upto<M>(entries: Seq<ModifierEntry<M>>, seed: Seq<u8>, i: int, k: int)
    requires
        0 <= i < entries.len(),
        i <= k <= entries.len(),
    ensures
        ({
            let z = with_zero_chance(entries, i);
            let a = run_entries(z.take(k), seed);
            let b = run_entries(entries.take(k), seed);
            let p = run_entries(entries.take(i), seed).1;
            let one_draw = entry_pick(entries[i], seed, p).1 == (p + 1) % stream_period();
            &&& a.0.len() == k
            &&& b.0.len() == k
            &&& k > i ==> a.0[i] is None
            &&& forall|j: int| 0 <= j < i ==> #[trigger] a.0[j] == b.0[j]
            &&& k == i ==> a == b
            &&& k > i && one_draw ==> a.1 == b.1 && a.0 == b.0.update(i, None)
        }),
    decreases k - i,
{
    let z = with_zero_chance(entries, i);
    lemma_run_len(z.take(k), seed);
    lemma_run_len(entries.take(k), seed);
    if k == i {
        assert(z.take(i) =~= entries.take(i));
    } else {
        lemma_independence_upto(entries, seed, i, k - 1);
        lemma_run_step(z, seed, k - 1);
        lemma_run_step(entries, seed, k - 1);
        let a = run_entries(z.take(k - 1), seed);
        let b = run_entries(entries.take(k - 1), seed);
        let p = run_entries(entries.take(i), seed).1;
        let one_draw = entry_pick(entries[i], seed, p).1 == (p + 1) % stream_period();
        if k - 1 > i && one_draw {
            let x = entry_pick(z[k - 1], seed, a.1).0;
            assert(a.0.push(x) =~= b.0.push(x).update(i, None));
        }
    }
}

proof fn lemma_all_zero_total(w: Seq<u32>)
    requires
        forall|j: int| 0 <= j < w.len() ==> #[trigger] w[j] == 0,
    ensures
        total_weight(w) == 0,
    decreases w.len(),
{
    if w.len() > 0 {
        lemma_all_zero_total(w.drop_last());
    }
}

/// A group whose children all weigh zero selects nothing and takes no draw;
/// an entry holding it selects nothing whatever its chance.
pub proof fn lemma_all_zero_group<M>(g: ModifierGroup<M>, chance: u32, seed: Seq<u8>, pos: int)
    requires
        forall|j: int| 0 <= j < g.modifiers@.len() ==> #[trigger] g.modifiers@[j].1 == 0,
    ensures
        node_pick(ModifierEntryInner::Group(g), seed, pos) == (None::<ModifierSingle<M>>, pos),
        entry_pick(ModifierEntry { modifier: ModifierEntryInner::Group(g), chance_for_modifier: chance }, seed, pos).0 is None,
{
    let w = weights_of(g.modifiers@);
    assert forall|j: int| 0 <= j < w.len() implies #[trigger] w[j] == 0 by {
        assert(g.modifiers@[j].1 == 0);
    }
    lemma_all_zero_total(w);
    assert(pick_outcome(seed, pos, w).0 is None);
}

/// A chance of 100 percent or more passes every gate draw.
pub proof fn lemma_full_chance_passes(word: u32, chance: u32)
    requires
        chance >= 100,
    ensures
        gate_passes(word, chance),
{
    let q = word as int / 256;
    assert(q < 0x100_0000);
    assert(q * 100 < chance as int * 0x100_0000) by (nonlinear_arith)
        requires
            0 <= q < 0x100_0000,
            chance >= 100,
    ;
}

/// Entries that each hold a single leaf with a chance of 100 percent or more
/// activate all their leaves, in entry order, under every seed.
pub proof fn lemma_certain_singles<M>(entries: Seq<ModifierEntry<M>>, seed: Seq<u8>)
    requires
        forall|j: int| 0 <= j < entries.len() ==> (#[trigger] entries[j]).chance_for_modifier >= 100
            && entries[j].modifier is Single,
    ensures
        selected_names(entries, seed) == entries.map_values(
            |e: ModifierEntry<M>| e.modifier->Single_0.name,
        ),
    decreases entries.len(),
{
    if entries.len() > 0 {
        let prefix = entries.drop_last();
        assert forall|j: int| 0 <= j < prefix.len() implies (#[trigger] prefix[j]).chance_for_modifier >= 100
            && prefix[j].modifier is Single by {
            assert(prefix[j] == entries[j]);
        }
        lemma_certain_singles(prefix, seed);
        let last = entries.last();
        let prev = run_entries(prefix, seed);
        lemma_full_chance_passes(crate::stream::chacha8_word(seed, prev.1), last.chance_for_modifier);
        assert(entries.map_values(|e: ModifierEntry<M>| e.modifier->Single_0.name) =~= prefix.map_values(
            |e: ModifierEntry<M>| e.modifier->Single_0.name,
        ).push(last.modifier->Single_0.name));
        assert(run_entries(entries, seed).0.drop_last() =~= prev.0);
    }
}

} // verus!
