//! The animation state machines.
//!
//! An animation advances one frame at a time. Each frame, two chains of
//! transformers run: world transformers move named objects of the scene, and
//! config transformers derive the next scene configuration. Every transformer
//! carries a tick counter and a step budget; a transformer whose budget is
//! spent, or whose named target is missing, stops its whole chain, and the
//! animation stops as soon as either chain stops.
//!
//! The per-tick geometric deltas are floating-point values and are applied by
//! the caller; this module decides, exactly, which transformers tick on each
//! advance and when the frame sequence ends.

use crate::registry::Registry;
use vstd::prelude::*;

verus! {

/// A world transformer: each tick moves the named object one step, up to
/// `steps` ticks in all.
pub struct ObjectMover {
    pub name: String,
    pub t: usize,
    pub steps: usize,
}

/// A config transformer: each tick moves the camera one step, up to `steps`
/// ticks in all.
pub struct CameraTransformer {
    pub t: usize,
    pub steps: usize,
}

/// A transformer has budget left while its tick counter is below its step
/// budget.
pub open spec fn mover_can_tick(m: ObjectMover) -> bool {
    m.t < m.steps
}

/// The mover after one tick.
pub open spec fn mover_ticked(m: ObjectMover) -> ObjectMover {
    ObjectMover { name: m.name, t: (m.t + 1) as usize, steps: m.steps }
}

pub open spec fn camera_can_tick(c: CameraTransformer) -> bool {
    c.t < c.steps
}

pub open spec fn camera_ticked(c: CameraTransformer) -> CameraTransformer {
    CameraTransformer { t: (c.t + 1) as usize, steps: c.steps }
}

/// A world mover ticks successfully when it has budget left and its target is
/// in the scene.
pub open spec fn mover_ready(m: ObjectMover, keys: Set<Seq<char>>) -> bool {
    mover_can_tick(m) && keys.contains(m.name@)
}

impl ObjectMover {
    /// A fresh mover for the named object, with a budget of `steps` ticks.
    pub fn new(name: String, steps: usize) -> (m: ObjectMover)
        ensures
            m.name == name,
            m.t == 0,
            m.steps == steps,
    {
        ObjectMover { name, t: 0, steps }
    }
}

impl CameraTransformer {
    /// A fresh camera transformer with a budget of `steps` ticks.
    pub fn new(steps: usize) -> (c: CameraTransformer)
        ensures
            c.t == 0,
            c.steps == steps,
    {
        CameraTransformer { t: 0, steps }
    }
}

/// What one advance of a chain did: the first `applied` transformers ticked;
/// `complete` says every transformer ticked, so the frame may be produced.
pub struct ChainOutcome {
    pub applied: usize,
    pub complete: bool,
}

/// How one advance of the world chain relates the transformer states before
/// (`pre`) and after (`post`), given the set of names present in the scene.
///
/// Transformers run in order. Each one first spends a tick if it has budget;
/// a transformer without budget, or whose target name is absent, stops the
/// chain there, and the transformers after it are untouched. An exhausted
/// transformer does not spend a tick; one whose target is merely absent does.
pub open spec fn world_chain_advanced(
    pre: Seq<ObjectMover>,
    keys: Set<Seq<char>>,
    post: Seq<ObjectMover>,
    r: ChainOutcome,
) -> bool {
    &&& post.len() == pre.len()
    &&& r.applied <= pre.len()
    &&& forall|i: int|
        0 <= i < r.applied ==> mover_ready(#[trigger] pre[i], keys) && post[i] == mover_ticked(
            pre[i],
        )
    &&& (r.complete <==> r.applied == pre.len())
    &&& !r.complete ==> {
        &&& !mover_ready(pre[r.applied as int], keys)
        &&& post[r.applied as int] == if mover_can_tick(pre[r.applied as int]) {
            mover_ticked(pre[r.applied as int])
        } else {
            pre[r.applied as int]
        }
    }
    &&& forall|i: int| r.applied < i < pre.len() ==> post[i] == #[trigger] pre[i]
}

/// The config chain advances the same way, except a transformer needs only
/// budget: there is no named target to find.
pub open spec fn config_chain_advanced(
    pre: Seq<CameraTransformer>,
    post: Seq<CameraTransformer>,
    r: ChainOutcome,
) -> bool {
    &&& post.len() == pre.len()
    &&& r.applied <= pre.len()
    &&& forall|i: int|
        0 <= i < r.applied ==> camera_can_tick(#[trigger] pre[i]) && post[i] == camera_ticked(
            pre[i],
        )
    &&& (r.complete <==> r.applied == pre.len())
    &&& !r.complete ==> !camera_can_tick(pre[r.applied as int]) && post[r.applied as int] == pre[
        r.applied as int
    ]
    &&& forall|i: int| r.applied < i < pre.len() ==> post[i] == #[trigger] pre[i]
}

/// The ordered world transformers of an animation.
pub struct WorldChain {
    pub transformers: Vec<ObjectMover>,
}

impl WorldChain {
    pub fn new(transformers: Vec<ObjectMover>) -> (chain: WorldChain)
        ensures
            chain.transformers == transformers,
    {
        WorldChain { transformers }
    }

    /// Run every transformer once, in order, against the names of `world`.
    ///
    /// The caller applies the per-tick delta of each of the first
    /// `applied` transformers to its named object, which is present.
    pub fn advance<T>(&mut self, world: &Registry<T>) -> (r: ChainOutcome)
        ensures
            world_chain_advanced(
                old(self).transformers@,
                world@.dom(),
                final(self).transformers@,
                r,
            ),
    {
        let ghost pre: Seq<ObjectMover> = self.transformers@;
        let n: usize = self.transformers.len();
        let mut i: usize = 0;
        while i < n
            invariant
                i <= n,
                n == self.transformers@.len(),
                pre == old(self).transformers@,
                pre.len() == n,
                forall|k: int|
                    0 <= k < i ==> mover_ready(#[trigger] pre[k], world@.dom())
                        && self.transformers@[k] == mover_ticked(pre[k]),
                forall|k: int| i <= k < n ==> self.transformers@[k] == #[trigger] pre[k],
            decreases n - i,
        {
            if self.transformers[i].t >= self.transformers[i].steps {
                return ChainOutcome { applied: i, complete: false };
            }
            let name = self.transformers[i].name.clone();
            let t = self.transformers[i].t;
            let steps = self.transformers[i].steps;
            self.transformers[i] = ObjectMover { name, t: t + 1, steps };
            let present = world.contains_key(&self.transformers[i].name);
            if !present {
                return ChainOutcome { applied: i, complete: false };
            }
            i = i + 1;
        }
        ChainOutcome { applied: n, complete: true }
    }
}

/// The ordered config transformers of an animation.
pub struct ConfigChain {
    pub transformers: Vec<CameraTransformer>,
}

impl ConfigChain {
    pub fn new(transformers: Vec<CameraTransformer>) -> (chain: ConfigChain)
        ensures
            chain.transformers == transformers,
    {
        ConfigChain { transformers }
    }

    /// Run every transformer once, in order.
    ///
    /// The caller folds the per-tick delta of each of the first `applied`
    /// transformers into the scene configuration, in order.
    pub fn advance(&mut self) -> (r: ChainOutcome)
        ensures
            config_chain_advanced(old(self).transformers@, final(self).transformers@, r),
    {
        let ghost pre: Seq<CameraTransformer> = self.transformers@;
        let n: usize = self.transformers.len();
        let mut i: usize = 0;
        while i < n
            invariant
                i <= n,
                n == self.transformers@.len(),
                pre == old(self).transformers@,
                pre.len() == n,
                forall|k: int|
                    0 <= k < i ==> camera_can_tick(#[trigger] pre[k]) && self.transformers@[k]
                        == camera_ticked(pre[k]),
                forall|k: int| i <= k < n ==> self.transformers@[k] == #[trigger] pre[k],
            decreases n - i,
        {
            if self.transformers[i].t >= self.transformers[i].steps {
                return ChainOutcome { applied: i, complete: false };
            }
            let t = self.transformers[i].t;
            let steps = self.transformers[i].steps;
            self.transformers[i] = CameraTransformer { t: t + 1, steps };
            i = i + 1;
        }
        ChainOutcome { applied: n, complete: true }
    }
}

/// What one advance of the whole animation did. A frame is produced only
/// when both chains ran to completion.
pub struct FrameOutcome {
    pub world: ChainOutcome,
    pub config: ChainOutcome,
    pub frame: bool,
}

/// The animation: a world chain and a config chain, advanced together once
/// per frame.
pub struct Animation {
    pub world: WorldChain,
    pub config: ConfigChain,
}

impl Animation {
    pub fn new(world: WorldChain, config: ConfigChain) -> (anim: Animation)
        ensures
            anim.world == world,
            anim.config == config,
    {
        Animation { world, config }
    }

    /// Advance both chains once. Both always run, whatever the other
    /// reports; the frame is produced only when both complete.
    pub fn advance<T>(&mut self, scene: &Registry<T>) -> (r: FrameOutcome)
        ensures
            world_chain_advanced(
                old(self).world.transformers@,
                scene@.dom(),
                final(self).world.transformers@,
                r.world,
            ),
            config_chain_advanced(
                old(self).config.transformers@,
                final(self).config.transformers@,
                r.config,
            ),
            r.frame == (r.world.complete && r.config.complete),
    {
        let world_outcome = self.world.advance(scene);
        let config_outcome = self.config.advance();
        let frame = world_outcome.complete && config_outcome.complete;
        FrameOutcome { world: world_outcome, config: config_outcome, frame }
    }
}

/// How many ticks a world mover grants over its next `n` advances, its
/// target staying present throughout: ticks are granted while budget lasts,
/// and none after the first refusal.
pub open spec fn ticks_granted(m: ObjectMover, n: nat) -> nat
    decreases n,
{
    if n == 0 {
        0
    } else if mover_can_tick(m) {
        1 + ticks_granted(mover_ticked(m), (n - 1) as nat)
    } else {
        0
    }
}

/// A mover with a budget of `steps` ticks, fresh or partly spent, grants
/// exactly its remaining budget before refusing: over `n` advances it ticks
/// `min(n, steps - t)` times. In particular a fresh mover with
/// `steps == k` grants exactly `k` ticks, however long the animation is
/// asked to run.
pub proof fn lemma_mover_budget(m: ObjectMover, n: nat)
    ensures
        ticks_granted(m, n) == if n <= m.steps - m.t {
            n as int
        } else if m.t < m.steps {
            m.steps - m.t
        } else {
            0
        },
    decreases n,
{
    if n > 0 && mover_can_tick(m) {
        lemma_mover_budget(mover_ticked(m), (n - 1) as nat);
    }
}

/// A mover whose budget is spent never ticks again: exhaustion is final.
pub proof fn lemma_exhausted_mover_stays(m: ObjectMover, n: nat)
    requires
        !mover_can_tick(m),
    ensures
        ticks_granted(m, n) == 0,
{
}

/// Once any world transformer of a chain has spent its budget, no advance of
/// that chain completes, and the transformer stays spent: the animation
/// produces no further frames.
pub proof fn lemma_world_chain_stops(
    pre: Seq<ObjectMover>,
    keys: Set<Seq<char>>,
    post: Seq<ObjectMover>,
    r: ChainOutcome,
    i: int,
)
    requires
        world_chain_advanced(pre, keys, post, r),
        0 <= i < pre.len(),
        !mover_can_tick(pre[i]),
    ensures
        !r.complete,
        !mover_can_tick(post[i]),
{
    assert(!(i < r.applied));
}

/// The config chain stops the same way: a spent transformer keeps every
/// later advance from completing.
pub proof fn lemma_config_chain_stops(
    pre: Seq<CameraTransformer>,
    post: Seq<CameraTransformer>,
    r: ChainOutcome,
    i: int,
)
    requires
        config_chain_advanced(pre, post, r),
        0 <= i < pre.len(),
        !camera_can_tick(pre[i]),
    ensures
        !r.complete,
        !camera_can_tick(post[i]),
{
    assert(!(i < r.applied));
}

} // verus!
