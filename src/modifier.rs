//! The modifier selection tree: leaves name a modifier, groups choose one
//! child by weight, and top-level entries gate their subtree by a chance.
use crate::stream::{
    chacha8_word, gate_passes, pick_outcome, stream_period, Stream,
};
use vstd::prelude::*;

verus! {

broadcast use vstd::std_specs::vec::group_vec_axioms, vstd::seq::group_seq_axioms;

/// A gameplay modifier: what it does once chosen is registered into the host
/// application `A`.
pub trait Modifier<A> {
    /// The host application after this modifier has been registered into `app`.
    spec fn activated(&self, app: A) -> A;

    fn initialize(&self, app: &mut A)
        ensures
            *final(app) == self.activated(*old(app)),
    ;
}

/// A leaf: one named modifier.
pub struct ModifierSingle<M> {
    pub name: &'static str,
    pub modifier: M,
}

/// An inner node: children, each with a weight; weight 0 is never drawn.
pub struct ModifierGroup<M> {
    pub name: &'static str,
    pub modifiers: Vec<(ModifierEntryInner<M>, u32)>,
}

pub enum ModifierEntryInner<M> {
    Single(ModifierSingle<M>),
    Group(ModifierGroup<M>),
}

/// A top-level slot: a node consulted only when a roll of
/// `chance_for_modifier` percent comes up.
pub struct ModifierEntry<M> {
    pub modifier: ModifierEntryInner<M>,
    pub chance_for_modifier: u32,
}

/// The weights of a group's children, in order.
pub open spec fn weights_of<M>(children: Seq<(ModifierEntryInner<M>, u32)>) -> Seq<u32> {
    children.map_values(|c: (ModifierEntryInner<M>, u32)| c.1)
}

/// The leaf a node selects from the stream of `seed` at `pos`, and the
/// position after the draws it took. A leaf selects itself and draws nothing;
/// a group draws a child by weight and descends into it, or selects nothing
/// where its weights admit no draw.
pub open spec fn node_pick<M>(node: ModifierEntryInner<M>, seed: Seq<u8>, pos: int) -> (Option<ModifierSingle<M>>, int)
    decreases node,
{
    match node {
        ModifierEntryInner::Single(s) => (Some(s), pos),
        ModifierEntryInner::Group(g) => {
            let o = pick_outcome(seed, pos, weights_of(g.modifiers@));
            match o.0 {
                Some(i) => if 0 <= i < g.modifiers@.len() {
                    node_pick(g.modifiers@[i].0, seed, o.1)
                } else {
                    (None, o.1)
                },
                None => (None, o.1),
            }
        },
    }
}

/// `leaf` can be reached from `node` along children of nonzero weight.
pub open spec fn reachable_by_weight<M>(node: ModifierEntryInner<M>, leaf: ModifierSingle<M>) -> bool
    decreases node,
{
    match node {
        ModifierEntryInner::Single(s) => s == leaf,
        ModifierEntryInner::Group(g) => exists|i: int|
            0 <= i < g.modifiers@.len() && #[trigger] g.modifiers@[i].1 > 0
                && reachable_by_weight(g.modifiers@[i].0, leaf),
    }
}

/// Every weighted draw that `node` takes from the stream of `seed` at `pos`
/// lands on a child in range whose weight is nonzero.
pub open spec fn draws_land<M>(node: ModifierEntryInner<M>, seed: Seq<u8>, pos: int) -> bool
    decreases node,
{
    match node {
        ModifierEntryInner::Single(_) => true,
        ModifierEntryInner::Group(g) => {
            let o = pick_outcome(seed, pos, weights_of(g.modifiers@));
            match o.0 {
                Some(i) => 0 <= i < g.modifiers@.len() && g.modifiers@[i].1 > 0
                    && draws_land(g.modifiers@[i].0, seed, o.1),
                None => true,
            }
        },
    }
}

/// Every weighted draw the entry takes, where its chance comes up, lands on a
/// child in range whose weight is nonzero.
pub open spec fn entry_draws_land<M>(e: ModifierEntry<M>, seed: Seq<u8>, pos: int) -> bool {
    gate_passes(chacha8_word(seed, pos), e.chance_for_modifier) ==> draws_land(
        e.modifier,
        seed,
        (pos + 1) % stream_period(),
    )
}

/// An entry first takes one gate draw; only if it passes is the node consulted.
pub open spec fn entry_pick<M>(e: ModifierEntry<M>, seed: Seq<u8>, pos: int) -> (Option<ModifierSingle<M>>, int) {
    let next = (pos + 1) % stream_period();
    if gate_passes(chacha8_word(seed, pos), e.chance_for_modifier) {
        node_pick(e.modifier, seed, next)
    } else {
        (None, next)
    }
}

impl<M> ModifierSingle<M> {
    pub fn new(name: &'static str, modifier: M) -> (r: Self)
        ensures
            r.name == name,
            r.modifier == modifier,
    {
        ModifierSingle { name, modifier }
    }

    /// A leaf selects itself and takes no draw.
    pub fn choose_modifier(&self, rng: &mut Stream) -> (r: Option<&ModifierSingle<M>>)
        ensures
            r == Some(self),
            *final(rng) == *old(rng),
    {
        Some(self)
    }
}

impl<M> ModifierGroup<M> {
    pub fn new(name: &'static str) -> (r: Self)
        ensures
            r.name == name,
            r.modifiers@.len() == 0,
    {
        ModifierGroup { name, modifiers: Vec::new() }
    }

    /// Appends a leaf child with `weight`.
    pub fn with_single(&mut self, entry: ModifierSingle<M>, weight: u32) -> (r: &mut Self)
        ensures
            r.name == old(self).name,
            r.modifiers@ == old(self).modifiers@.push((ModifierEntryInner::Single(entry), weight)),
            *final(self) == *final(r),
    {
        self.modifiers.push((ModifierEntryInner::Single(entry), weight));
        self
    }

    /// Appends a group child with `weight`.
    pub fn with_group(&mut self, entry: ModifierGroup<M>, weight: u32) -> (r: &mut Self)
        ensures
            r.name == old(self).name,
            r.modifiers@ == old(self).modifiers@.push((ModifierEntryInner::Group(entry), weight)),
            *final(self) == *final(r),
    {
        self.modifiers.push((ModifierEntryInner::Group(entry), weight));
        self
    }

    fn get_modifier_weights(&self) -> (r: Vec<u32>)
        ensures
            r@ == weights_of(self.modifiers@),
    {
        let mut weights: Vec<u32> = Vec::new();
        let mut k: usize = 0;
        while k < self.modifiers.len()
            invariant
                k <= self.modifiers@.len(),
                weights@ == weights_of(self.modifiers@.take(k as int)),
            decreases self.modifiers@.len() - k,
        {
            weights.push(self.modifiers[k].1);
            k = k + 1;
            assert(weights_of(self.modifiers@.take(k as int)) =~= weights@);
        }
        assert(self.modifiers@.take(k as int) =~= self.modifiers@);
        weights
    }

    /// Draws a child by weight and descends into it.
    pub fn choose_modifier(&self, rng: &mut Stream) -> (r: Option<&ModifierSingle<M>>)
        requires
            old(rng).wf(),
        ensures
            ({
                let o = node_pick(ModifierEntryInner::Group(*self), old(rng).seed@, old(rng).word_pos as int);
                &&& r matches Some(s) ==> o.0 == Some(*s)
                &&& r is None ==> o.0 is None
                &&& final(rng).word_pos == o.1
            }),
            r matches Some(s) ==> reachable_by_weight(ModifierEntryInner::Group(*self), *s),
            draws_land(ModifierEntryInner::Group(*self), old(rng).seed@, old(rng).word_pos as int),
            final(rng).seed == old(rng).seed,
            final(rng).wf(),
        decreases self,
    {
        let weights = self.get_modifier_weights();
        match rng.pick_weighted(&weights) {
            None => None,
            Some(i) => {
                let r = self.modifiers[i].0.choose_modifier(rng);
                proof {
                    if let Some(s) = r {
                        assert(self.modifiers@[i as int].1 > 0);
                        assert(reachable_by_weight(self.modifiers@[i as int].0, *s));
                    }
                }
                r
            },
        }
    }
}

impl<M> ModifierEntryInner<M> {
    pub fn choose_modifier(&self, rng: &mut Stream) -> (r: Option<&ModifierSingle<M>>)
        requires
            old(rng).wf(),
        ensures
            ({
                let o = node_pick(*self, old(rng).seed@, old(rng).word_pos as int);
                &&& r matches Some(s) ==> o.0 == Some(*s)
                &&& r is None ==> o.0 is None
                &&& final(rng).word_pos == o.1
            }),
            r matches Some(s) ==> reachable_by_weight(*self, *s),
            draws_land(*self, old(rng).seed@, old(rng).word_pos as int),
            final(rng).seed == old(rng).seed,
            final(rng).wf(),
        decreases self,
    {
        match self {
            ModifierEntryInner::Single(s) => s.choose_modifier(rng),
            ModifierEntryInner::Group(g) => g.choose_modifier(rng),
        }
    }
}

impl<M> ModifierEntry<M> {
    pub fn single(name: &'static str, modifier: M, chance_for_modifier: u32) -> (r: Self)
        ensures
            r.modifier == ModifierEntryInner::Single(ModifierSingle { name, modifier }),
            r.chance_for_modifier == chance_for_modifier,
    {
        ModifierEntry {
            modifier: ModifierEntryInner::Single(ModifierSingle::new(name, modifier)),
            chance_for_modifier,
        }
    }

    pub fn group(modifier: ModifierGroup<M>, chance_for_modifier: u32) -> (r: Self)
        ensures
            r.modifier == ModifierEntryInner::Group(modifier),
            r.chance_for_modifier == chance_for_modifier,
    {
        ModifierEntry { modifier: ModifierEntryInner::Group(modifier), chance_for_modifier }
    }

    /// Rolls the entry's chance; where it comes up, selects from the node.
    pub fn choose_modifier(&self, rng: &mut Stream) -> (r: Option<&ModifierSingle<M>>)
        requires
            old(rng).wf(),
        ensures
            ({
                let o = entry_pick(*self, old(rng).seed@, old(rng).word_pos as int);
                &&& r matches Some(s) ==> o.0 == Some(*s)
                &&& r is None ==> o.0 is None
                &&& final(rng).word_pos == o.1
            }),
            r matches Some(s) ==> reachable_by_weight(self.modifier, *s),
            entry_draws_land(*self, old(rng).seed@, old(rng).word_pos as int),
            final(rng).seed == old(rng).seed,
            final(rng).wf(),
    {
        if rng.roll_chance(self.chance_for_modifier) {
            self.modifier.choose_modifier(rng)
        } else {
            None
        }
    }
}

/// The leaves the entries select in turn from one stream of `seed`, which
/// starts at its first word, with the position after the last draw.
pub open spec fn run_entries<M>(entries: Seq<ModifierEntry<M>>, seed: Seq<u8>) -> (Seq<Option<ModifierSingle<M>>>, int)
    decreases entries.len(),
{
    if entries.len() == 0 {
        (seq![], 0)
    } else {
        let prev = run_entries(entries.drop_last(), seed);
        let cur = entry_pick(entries.last(), seed, prev.1);
        (prev.0.push(cur.0), cur.1)
    }
}

/// Each entry's selected leaf, if any, is reached along children of nonzero weight.
pub open spec fn picks_by_weight<M>(entries: Seq<ModifierEntry<M>>, picks: Seq<Option<ModifierSingle<M>>>) -> bool {
    forall|j: int|
        0 <= j < picks.len() && j < entries.len() && (#[trigger] picks[j]) is Some
            ==> reachable_by_weight(entries[j].modifier, picks[j]->Some_0)
}

/// The names of the selected leaves, in order, skipping entries that selected none.
pub open spec fn names_of<M>(picks: Seq<Option<ModifierSingle<M>>>) -> Seq<&'static str>
    decreases picks.len(),
{
    if picks.len() == 0 {
        seq![]
    } else {
        let prev = names_of(picks.drop_last());
        match picks.last() {
            Some(s) => prev.push(s.name),
            None => prev,
        }
    }
}

/// The host application after each selected leaf's modifier has been
/// registered into `app`, in order.
pub open spec fn activate_all<M: Modifier<A>, A>(picks: Seq<Option<ModifierSingle<M>>>, app: A) -> A
    decreases picks.len(),
{
    if picks.len() == 0 {
        app
    } else {
        let prev = activate_all(picks.drop_last(), app);
        match picks.last() {
            Some(s) => s.modifier.activated(prev),
            None => prev,
        }
    }
}

/// Each entry's draws land on in-range children of nonzero weight, taken at
/// the position where the run reaches that entry.
pub open spec fn run_draws_land<M>(entries: Seq<ModifierEntry<M>>, seed: Seq<u8>) -> bool {
    forall|j: int|
        0 <= j < entries.len() ==> #[trigger] entry_draws_land(
            entries[j],
            seed,
            run_entries(entries.take(j), seed).1,
        )
}

/// The names a registry of `entries` activates under `seed`.
pub open spec fn selected_names<M>(entries: Seq<ModifierEntry<M>>, seed: Seq<u8>) -> Seq<&'static str> {
    names_of(run_entries(entries, seed).0)
}

/// The names of the modifiers that were activated, in activation order.
#[derive(Default, Clone)]
pub struct ActiveModifiers {
    pub modifiers: Vec<&'static str>,
}

impl ActiveModifiers {
    pub fn new(modifiers: &[&'static str]) -> (r: Self)
        ensures
            r.modifiers@ == modifiers@,
    {
        let mut v: Vec<&'static str> = Vec::new();
        let mut k: usize = 0;
        while k < modifiers.len()
            invariant
                k <= modifiers@.len(),
                v@ == modifiers@.take(k as int),
            decreases modifiers@.len() - k,
        {
            v.push(modifiers[k]);
            k = k + 1;
            assert(v@ =~= modifiers@.take(k as int));
        }
        assert(modifiers@.take(k as int) =~= modifiers@);
        ActiveModifiers { modifiers: v }
    }

    pub fn get(&self) -> (r: &[&'static str])
        ensures
            r@ == self.modifiers@,
    {
        self.modifiers.as_slice()
    }
}

/// The pool of available modifiers and the seed that decides among them.
pub struct Modifiers<M> {
    pub modifiers: Vec<ModifierEntry<M>>,
    pub seed: [u8; 32],
}

impl<M> Modifiers<M> {
    pub fn new(seed: [u8; 32]) -> (r: Self)
        ensures
            r.modifiers@.len() == 0,
            r.seed == seed,
    {
        Modifiers { modifiers: Vec::new(), seed }
    }

    pub fn with_modifier_entry(self, entry: ModifierEntry<M>) -> (r: Self)
        ensures
            r.modifiers@ == self.modifiers@.push(entry),
            r.seed == self.seed,
    {
        let mut this = self;
        this.modifiers.push(entry);
        this
    }

    /// Walks the entries in order over one ChaCha8 stream seeded from the
    /// registry's seed, initializes each selected modifier into `app`, and
    /// returns the selected names.
    pub fn apply<A>(&self, app: &mut A) -> (r: ActiveModifiers)
        where
            M: Modifier<A>,
        ensures
            r.modifiers@ == selected_names(self.modifiers@, self.seed@),
            picks_by_weight(self.modifiers@, run_entries(self.modifiers@, self.seed@).0),
            run_draws_land(self.modifiers@, self.seed@),
            *final(app) == activate_all(run_entries(self.modifiers@, self.seed@).0, *old(app)),
    {
        let ghost app0 = *app;
        let mut rng = Stream::new(self.seed);
        let mut names: Vec<&'static str> = Vec::new();
        let mut k: usize = 0;
        while k < self.modifiers.len()
            invariant
                k <= self.modifiers@.len(),
                rng.seed == self.seed,
                rng.wf(),
                rng.word_pos == run_entries(self.modifiers@.take(k as int), self.seed@).1,
                names@ == names_of(run_entries(self.modifiers@.take(k as int), self.seed@).0),
                run_entries(self.modifiers@.take(k as int), self.seed@).0.len() == k,
                picks_by_weight(self.modifiers@, run_entries(self.modifiers@.take(k as int), self.seed@).0),
                *app == activate_all(run_entries(self.modifiers@.take(k as int), self.seed@).0, app0),
                forall|j: int| 0 <= j < k ==> #[trigger] entry_draws_land(
                    self.modifiers@[j],
                    self.seed@,
                    run_entries(self.modifiers@.take(j), self.seed@).1,
                ),
            decreases self.modifiers@.len() - k,
        {
            let ghost prefix = self.modifiers@.take(k as int);
            let ghost step = self.modifiers@.take(k + 1);
            assert(step.drop_last() =~= prefix);
            let chosen = self.modifiers[k].choose_modifier(&mut rng);
            if let Some(s) = chosen {
                s.modifier.initialize(app);
                names.push(s.name);
            }
            k = k + 1;
            proof {
                let picks = run_entries(step, self.seed@).0;
                assert(picks.drop_last() =~= run_entries(prefix, self.seed@).0);
                assert forall|j: int|
                    0 <= j < picks.len() && j < self.modifiers@.len() && (#[trigger] picks[j]) is Some
                        implies reachable_by_weight(self.modifiers@[j].modifier, picks[j]->Some_0) by {
                    if j < k - 1 {
                        assert(picks[j] == run_entries(prefix, self.seed@).0[j]);
                    }
                }
            }
        }
        assert(self.modifiers@.take(k as int) =~= self.modifiers@);
        ActiveModifiers::new(names.as_slice())
    }
}

} // verus!
