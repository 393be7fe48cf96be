use modifier_select::modifier::{
    ActiveModifiers, Modifier, ModifierEntry, ModifierGroup, ModifierSingle, Modifiers,
};
use modifier_select::seed::resolve_seed;
use modifier_select::stream::Stream;
use rand::distributions::WeightedIndex;
use rand::{Rng, RngCore, SeedableRng};
use rand_chacha::ChaCha8Rng;

/// Records its tag into the host log when initialized.
struct Tag(&'static str);

impl Modifier<Vec<&'static str>> for Tag {
    fn activated(&self, app: Vec<&'static str>) -> Vec<&'static str> {
        let mut app = app;
        app.push(self.0);
        app
    }

    fn initialize(&self, app: &mut Vec<&'static str>) {
        app.push(self.0);
    }
}

fn token_seed() -> [u8; 32] {
    resolve_seed(Some("test-token"))
}

fn run(m: &Modifiers<Tag>) -> (Vec<&'static str>, Vec<&'static str>) {
    let mut log: Vec<&'static str> = Vec::new();
    let active = m.apply(&mut log);
    (active.get().to_vec(), log)
}

fn ab_group() -> ModifierGroup<Tag> {
    let mut g = ModifierGroup::new("ab");
    g.with_single(ModifierSingle::new("a", Tag("a")), 1)
        .with_single(ModifierSingle::new("b", Tag("b")), 0);
    g
}

#[test]
fn token_seed_is_sha3_256_of_token() {
    let s = resolve_seed(Some("abc"));
    let expected: [u8; 32] = [
        0x3a, 0x98, 0x5d, 0xa7, 0x4f, 0xe2, 0x25, 0xb2, 0x04, 0x5c, 0x17, 0x2d, 0x6b, 0xd3, 0x90,
        0xbd, 0x85, 0x5f, 0x08, 0x6e, 0x3e, 0x9d, 0x52, 0x5b, 0x46, 0xbf, 0xe2, 0x45, 0x11, 0x43,
        0x15, 0x32,
    ];
    assert_eq!(s, expected);
    assert_eq!(resolve_seed(Some("abc")), resolve_seed(Some("abc")));
    assert_ne!(resolve_seed(Some("abc")), resolve_seed(Some("abd")));
}

#[test]
fn missing_token_draws_fresh_seeds() {
    let a = resolve_seed(None);
    let b = resolve_seed(None);
    assert_ne!(a, b);
}

#[test]
fn stream_words_follow_chacha8() {
    let seed = token_seed();
    let mut reference = ChaCha8Rng::from_seed(seed);
    let mut s = Stream::new(seed);
    for k in 0..200u128 {
        assert_eq!(s.word_pos, k);
        assert_eq!(s.next_word(), reference.next_u32());
    }
    assert_eq!(s.word_pos, 200);
}

#[test]
fn roll_chance_reads_upper_24_bits() {
    let seed = resolve_seed(Some("gate"));
    let mut reference = ChaCha8Rng::from_seed(seed);
    let mut s = Stream::new(seed);
    for chance in [0u32, 1, 25, 50, 65, 99, 100, 250] {
        for _ in 0..300 {
            let word = reference.next_u32();
            let expected = (word >> 8) as u64 * 100 < chance as u64 * (1u64 << 24);
            assert_eq!(s.roll_chance(chance), expected);
        }
    }
}

#[test]
fn roll_chance_agrees_with_float_draw_on_sampled_words() {
    let seed = resolve_seed(Some("gate-float"));
    let mut reference = ChaCha8Rng::from_seed(seed);
    let mut s = Stream::new(seed);
    for chance in [0u32, 25, 50, 100] {
        for _ in 0..300 {
            let expected = (reference.gen::<f32>() * 100.0) < chance as f32;
            assert_eq!(s.roll_chance(chance), expected);
        }
    }
}

#[test]
fn pick_weighted_matches_weighted_index() {
    let seed = resolve_seed(Some("weights"));
    let weights: Vec<u32> = vec![3, 0, 5, 1, 7];
    let dist = WeightedIndex::new(&weights).unwrap();
    let mut reference = ChaCha8Rng::from_seed(seed);
    let mut s = Stream::new(seed);
    for _ in 0..500 {
        let i = s.pick_weighted(&weights).unwrap();
        assert_eq!(i, reference.sample(&dist));
        assert_eq!(s.word_pos, reference.get_word_pos());
        assert_ne!(i, 1);
    }
}

#[test]
fn pick_weighted_degenerate_weights_take_no_draw() {
    let mut s = Stream::new(token_seed());
    assert_eq!(s.pick_weighted(&vec![]), None);
    assert_eq!(s.pick_weighted(&vec![0, 0, 0]), None);
    assert_eq!(s.pick_weighted(&vec![u32::MAX, 1]), None);
    assert_eq!(s.word_pos, 0);
    assert!(s.pick_weighted(&vec![u32::MAX]).is_some());
}

#[test]
fn group_scenario_selects_a() {
    let m = Modifiers::new(token_seed()).with_modifier_entry(ModifierEntry::group(ab_group(), 100));
    let (names, log) = run(&m);
    assert_eq!(names, vec!["a"]);
    assert_eq!(log, vec!["a"]);
}

#[test]
fn zero_chance_scenario_is_empty() {
    let m = Modifiers::new(token_seed()).with_modifier_entry(ModifierEntry::group(ab_group(), 0));
    let (names, log) = run(&m);
    assert!(names.is_empty());
    assert!(log.is_empty());
}

#[test]
fn two_certain_singles_in_order() {
    for k in 0..50 {
        let seed = resolve_seed(Some(&format!("any-{}", k)));
        let m = Modifiers::new(seed)
            .with_modifier_entry(ModifierEntry::single("x", Tag("x"), 100))
            .with_modifier_entry(ModifierEntry::single("y", Tag("y"), 100));
        let (names, log) = run(&m);
        assert_eq!(names, vec!["x", "y"]);
        assert_eq!(log, vec!["x", "y"]);
    }
}

#[test]
fn apply_is_deterministic() {
    let build = || {
        let mut g = ModifierGroup::new("g");
        g.with_single(ModifierSingle::new("p", Tag("p")), 2)
            .with_single(ModifierSingle::new("q", Tag("q")), 5);
        Modifiers::new(resolve_seed(Some("det")))
            .with_modifier_entry(ModifierEntry::group(g, 60))
            .with_modifier_entry(ModifierEntry::single("r", Tag("r"), 40))
    };
    assert_eq!(run(&build()), run(&build()));
}

#[test]
fn zero_chance_entry_leaves_others_alone() {
    for k in 0..100 {
        let seed = resolve_seed(Some(&format!("indep-{}", k)));
        let build = |chance: u32| {
            Modifiers::new(seed)
                .with_modifier_entry(ModifierEntry::single("u", Tag("u"), 50))
                .with_modifier_entry(ModifierEntry::single("v", Tag("v"), chance))
                .with_modifier_entry(ModifierEntry::single("w", Tag("w"), 50))
        };
        let (before, _) = run(&build(100));
        let (after, _) = run(&build(0));
        let without_v: Vec<&str> = before.iter().copied().filter(|n| *n != "v").collect();
        assert_eq!(after, without_v);
        assert!(before.contains(&"v"));
    }
}

#[test]
fn zero_weight_child_never_selected() {
    for k in 0..500 {
        let seed = resolve_seed(Some(&format!("zw-{}", k)));
        let mut g = ModifierGroup::new("g");
        g.with_single(ModifierSingle::new("a", Tag("a")), 1)
            .with_single(ModifierSingle::new("b", Tag("b")), 0)
            .with_single(ModifierSingle::new("c", Tag("c")), 2);
        let m = Modifiers::new(seed).with_modifier_entry(ModifierEntry::group(g, 100));
        let (names, _) = run(&m);
        assert_eq!(names.len(), 1);
        assert_ne!(names[0], "b");
    }
}

#[test]
fn all_zero_group_selects_nothing() {
    for k in 0..200 {
        let seed = resolve_seed(Some(&format!("az-{}", k)));
        let mut g = ModifierGroup::new("zeros");
        g.with_single(ModifierSingle::new("a", Tag("a")), 0)
            .with_single(ModifierSingle::new("b", Tag("b")), 0);
        let m = Modifiers::new(seed)
            .with_modifier_entry(ModifierEntry::group(g, 100))
            .with_modifier_entry(ModifierEntry::group(ModifierGroup::new("empty"), 100));
        let (names, log) = run(&m);
        assert!(names.is_empty());
        assert!(log.is_empty());
    }
}

#[test]
fn overflowing_weights_select_nothing() {
    let mut g = ModifierGroup::new("big");
    g.with_single(ModifierSingle::new("a", Tag("a")), u32::MAX)
        .with_single(ModifierSingle::new("b", Tag("b")), 1);
    let m = Modifiers::new(token_seed()).with_modifier_entry(ModifierEntry::group(g, 100));
    let (names, _) = run(&m);
    assert!(names.is_empty());
}

#[test]
fn weighted_frequencies_follow_weights() {
    let trials = 4000;
    let mut a_count = 0;
    for k in 0..trials {
        let seed = resolve_seed(Some(&format!("fair-{}", k)));
        let mut g = ModifierGroup::new("g");
        g.with_single(ModifierSingle::new("a", Tag("a")), 1)
            .with_single(ModifierSingle::new("b", Tag("b")), 3);
        let m = Modifiers::new(seed).with_modifier_entry(ModifierEntry::group(g, 100));
        let (names, _) = run(&m);
        if names == vec!["a"] {
            a_count += 1;
        }
    }
    let freq = a_count as f64 / trials as f64;
    assert!((freq - 0.25).abs() < 0.03, "frequency {}", freq);
}

#[test]
fn chance_frequency_follows_percent() {
    let trials = 4000;
    let mut hits = 0;
    for k in 0..trials {
        let seed = resolve_seed(Some(&format!("chance-{}", k)));
        let m = Modifiers::new(seed).with_modifier_entry(ModifierEntry::single("s", Tag("s"), 30));
        if !run(&m).0.is_empty() {
            hits += 1;
        }
    }
    let freq = hits as f64 / trials as f64;
    assert!((freq - 0.30).abs() < 0.03, "frequency {}", freq);
}

/// The same selection written directly against rand and rand_chacha, with
/// the chance as a float draw.
fn direct_selection(seed: [u8; 32]) -> Vec<&'static str> {
    let mut rng = ChaCha8Rng::from_seed(seed);
    let mut out = Vec::new();
    // entry 1: group {a:1, b:3, inner{c:2, d:0}:2} at 50%
    if rng.gen::<f32>() * 100.0 < 50.0 {
        let outer = WeightedIndex::new(&[1u32, 3, 2]).unwrap();
        match rng.sample(&outer) {
            0 => out.push("a"),
            1 => out.push("b"),
            _ => {
                let inner = WeightedIndex::new(&[2u32, 0]).unwrap();
                out.push(if rng.sample(&inner) == 0 { "c" } else { "d" });
            }
        }
    }
    // entry 2: single e at 70%
    if rng.gen::<f32>() * 100.0 < 70.0 {
        out.push("e");
    }
    // entry 3: all-zero group at 100%
    let _ = rng.gen::<f32>();
    // entry 4: single f at 20%
    if rng.gen::<f32>() * 100.0 < 20.0 {
        out.push("f");
    }
    out
}

#[test]
fn apply_matches_direct_selection() {
    for k in 0..300 {
        let seed = resolve_seed(Some(&format!("tree-{}", k)));
        let mut inner = ModifierGroup::new("inner");
        inner
            .with_single(ModifierSingle::new("c", Tag("c")), 2)
            .with_single(ModifierSingle::new("d", Tag("d")), 0);
        let mut outer = ModifierGroup::new("outer");
        outer
            .with_single(ModifierSingle::new("a", Tag("a")), 1)
            .with_single(ModifierSingle::new("b", Tag("b")), 3)
            .with_group(inner, 2);
        let mut zeros = ModifierGroup::new("zeros");
        zeros.with_single(ModifierSingle::new("z", Tag("z")), 0);
        let m = Modifiers::new(seed)
            .with_modifier_entry(ModifierEntry::group(outer, 50))
            .with_modifier_entry(ModifierEntry::single("e", Tag("e"), 70))
            .with_modifier_entry(ModifierEntry::group(zeros, 100))
            .with_modifier_entry(ModifierEntry::single("f", Tag("f"), 20));
        let (names, log) = run(&m);
        assert_eq!(names, direct_selection(seed));
        assert_eq!(log, names);
    }
}

#[test]
fn empty_registry_selects_nothing() {
    let m: Modifiers<Tag> = Modifiers::new(token_seed());
    assert!(run(&m).0.is_empty());
}

#[test]
fn active_modifiers_default_and_clone() {
    assert!(ActiveModifiers::default().get().is_empty());
    let a = ActiveModifiers::new(&["k"]);
    assert_eq!(a.clone().get(), &["k"]);
}

#[test]
fn activations_follow_selected_names_only() {
    let mut g = ModifierGroup::new("g");
    g.with_single(ModifierSingle::new("a", Tag("a")), 1)
        .with_single(ModifierSingle::new("b", Tag("b")), 0);
    let m = Modifiers::new(token_seed())
        .with_modifier_entry(ModifierEntry::single("skip", Tag("skip"), 0))
        .with_modifier_entry(ModifierEntry::group(g, 100))
        .with_modifier_entry(ModifierEntry::single("z", Tag("z"), 100));
    let mut log: Vec<&'static str> = vec!["start"];
    let active = m.apply(&mut log);
    assert_eq!(active.get(), &["a", "z"]);
    assert_eq!(log, vec!["start", "a", "z"]);
}

#[test]
fn active_modifiers_keeps_names() {
    let a = ActiveModifiers::new(&["one", "two"]);
    assert_eq!(a.get(), &["one", "two"]);
    assert!(ActiveModifiers::new(&[]).get().is_empty());
}
