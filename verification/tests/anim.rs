use ray_tracing::anim::{
    Animation, CameraTransformer, ConfigChain, ObjectMover, WorldChain,
};
use ray_tracing::registry::Registry;

fn scene_with(names: &[&str]) -> Registry<u8> {
    let mut reg = Registry::new();
    for name in names {
        reg.add(String::from(*name), 0);
    }
    reg
}

#[test]
fn mover_with_budget_k_grants_k_advances() {
    let scene = scene_with(&["main1"]);
    let mut chain = WorldChain::new(vec![ObjectMover::new(String::from("main1"), 3)]);
    for _ in 0..3 {
        let outcome = chain.advance(&scene);
        assert!(outcome.complete);
        assert_eq!(outcome.applied, 1);
    }
    // the budget is spent: no further advance completes
    for _ in 0..2 {
        let outcome = chain.advance(&scene);
        assert!(!outcome.complete);
        assert_eq!(outcome.applied, 0);
    }
    assert_eq!(chain.transformers[0].t, 3);
}

#[test]
fn missing_target_stops_the_chain_but_spends_the_tick() {
    let scene = scene_with(&["ground"]);
    let mut chain = WorldChain::new(vec![ObjectMover::new(String::from("main1"), 5)]);
    let outcome = chain.advance(&scene);
    assert!(!outcome.complete);
    assert_eq!(outcome.applied, 0);
    assert_eq!(chain.transformers[0].t, 1);
}

#[test]
fn earlier_movers_tick_even_when_a_later_one_is_spent() {
    let scene = scene_with(&["a", "b"]);
    let mut chain = WorldChain::new(vec![
        ObjectMover::new(String::from("a"), 5),
        ObjectMover::new(String::from("b"), 2),
    ]);
    for _ in 0..2 {
        assert!(chain.advance(&scene).complete);
    }
    // the second mover is spent; the first keeps ticking on later advances
    let outcome = chain.advance(&scene);
    assert!(!outcome.complete);
    assert_eq!(outcome.applied, 1);
    assert_eq!(chain.transformers[0].t, 3);
    assert_eq!(chain.transformers[1].t, 2);
}

#[test]
fn config_chain_spends_its_budget() {
    let mut chain = ConfigChain::new(vec![CameraTransformer::new(2)]);
    assert!(chain.advance().complete);
    assert!(chain.advance().complete);
    let outcome = chain.advance();
    assert!(!outcome.complete);
    assert_eq!(outcome.applied, 0);
    assert_eq!(chain.transformers[0].t, 2);
}

#[test]
fn animation_stops_when_either_chain_stops() {
    let scene = scene_with(&["main1"]);
    let mut anim = Animation::new(
        WorldChain::new(vec![ObjectMover::new(String::from("main1"), 3)]),
        ConfigChain::new(vec![CameraTransformer::new(2)]),
    );
    assert!(anim.advance(&scene).frame);
    assert!(anim.advance(&scene).frame);
    // the config chain is exhausted first; the world chain still ticks
    let outcome = anim.advance(&scene);
    assert!(!outcome.frame);
    assert!(outcome.world.complete);
    assert!(!outcome.config.complete);
    // after termination no further frames are produced
    assert!(!anim.advance(&scene).frame);
}

#[test]
fn empty_chains_always_complete() {
    let scene: Registry<u8> = Registry::new();
    let mut anim = Animation::new(WorldChain::new(vec![]), ConfigChain::new(vec![]));
    for _ in 0..10 {
        assert!(anim.advance(&scene).frame);
    }
}
