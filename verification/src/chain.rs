//! The signal chain: five layers run in order until one resolves the tile.
use vstd::prelude::*;
use std::time::Instant;
use crate::clock::{duration_nanos, elapsed_since, instant_now};
use crate::layers::ollama::{prompt_text, ModelLayer};
use crate::stats::ChainStats;
use crate::text::{decimal, push_digits};
use crate::tile::{Layer, LayerResult, Tile};

verus! {

/// A composable five-layer signal processing pipeline.
///
/// Layers run in order. The first layer to resolve the tile stops the chain; if every
/// layer escalates, the tile comes out unresolved.
pub struct SignalChain<L0: Layer, L1: Layer, L2: Layer, L3: Layer, L4: Layer> {
    pub l0: L0,
    pub l1: L1,
    pub l2: L2,
    pub l3: L3,
    pub l4: L4,
    pub stats: ChainStats,
}

/// Result of running a tile through the chain.
#[derive(Debug)]
pub struct ChainResult {
    pub tile: Tile,
    /// Position and name of the layer that resolved the tile, if any did.
    pub resolved_at: Option<(usize, String)>,
    /// Time the run took, in nanoseconds (cut to 64 bits).
    pub latency: u64,
}

/// `a + b`, or the largest `u64` where the sum exceeds it.
pub open spec fn add_saturating(a: u64, b: u64) -> u64 {
    if a + b > u64::MAX {
        u64::MAX
    } else {
        (a + b) as u64
    }
}

/// The position of the last layer a run reaches: the resolving one, else the last.
pub open spec fn last_run(at: Option<int>) -> int {
    match at {
        Some(i) => i,
        None => 4,
    }
}

/// A position as a mathematical integer.
pub open spec fn as_int(at: Option<usize>) -> Option<int> {
    match at {
        Some(i) => Some(i as int),
        None => None,
    }
}

/// The label of the last resolution: `"L<position>: <name>"`.
pub open spec fn resolution_label(i: int, name: Seq<char>) -> Seq<char> {
    "L"@ + decimal(i) + ": "@ + name
}

impl<L0: Layer, L1: Layer, L2: Layer, L3: Layer, L4: Layer> SignalChain<L0, L1, L2, L3, L4> {
    /// Every layer is ready to process, the statistics add up, and every name in the
    /// per-layer tally is the name of one of the five layers.
    pub open spec fn wf(self) -> bool {
        &&& self.l0.wf()
        &&& self.l1.wf()
        &&& self.l2.wf()
        &&& self.l3.wf()
        &&& self.l4.wf()
        &&& self.stats.consistent()
        &&& self.tally_names_are_layers()
    }

    /// Every name in the per-layer tally is the name of one of the five layers.
    pub open spec fn tally_names_are_layers(self) -> bool {
        forall|k: Seq<char>| #[trigger] self.stats.resolution_by_layer@.dom().contains(k)
            ==> exists|i: int| 0 <= i < 5 && k == self.layer_name(i)
    }

    /// The name of the layer at position `i`.
    pub open spec fn layer_name(self, i: int) -> Seq<char> {
        if i == 0 {
            self.l0.spec_name()
        } else if i == 1 {
            self.l1.spec_name()
        } else if i == 2 {
            self.l2.spec_name()
        } else if i == 3 {
            self.l3.spec_name()
        } else {
            self.l4.spec_name()
        }
    }

    /// The layers from position `from` on are as they were in `self`.
    pub open spec fn untouched_from(self, post: Self, from: int) -> bool {
        &&& from <= 0 ==> post.l0 == self.l0
        &&& from <= 1 ==> post.l1 == self.l1
        &&& from <= 2 ==> post.l2 == self.l2
        &&& from <= 3 ==> post.l3 == self.l3
        &&& from <= 4 ==> post.l4 == self.l4
    }

    /// A run of the layers on `tile` that leaves them as in `post` and hands out `out`:
    /// the layers before position `i` escalate, layer `i` resolves with `out` and the later
    /// layers are not run; with `at` equal to `None`, every layer escalates and the last
    /// one hands out `out`.
    pub open spec fn run(self, tile: Tile, post: Self, out: Tile, at: Option<int>) -> bool {
        match at {
            Some(i) => {
                &&& 0 <= i < 5
                &&& self.untouched_from(post, i + 1)
                &&& if i == 0 {
                    self.l0.step(tile, post.l0, LayerResult::Resolved(out))
                } else if i == 1 {
                    exists|t1: Tile|
                        #![trigger self.l0.step(tile, post.l0, LayerResult::Escalate(t1))]
                        self.l0.step(tile, post.l0, LayerResult::Escalate(t1)) && self.l1.step(
                            t1,
                            post.l1,
                            LayerResult::Resolved(out),
                        )
                } else if i == 2 {
                    exists|t1: Tile, t2: Tile|
                        #![trigger self.l0.step(tile, post.l0, LayerResult::Escalate(t1)), self.l1.step(t1, post.l1, LayerResult::Escalate(t2))]
                        self.l0.step(tile, post.l0, LayerResult::Escalate(t1)) && self.l1.step(
                            t1,
                            post.l1,
                            LayerResult::Escalate(t2),
                        ) && self.l2.step(t2, post.l2, LayerResult::Resolved(out))
                } else if i == 3 {
                    exists|t1: Tile, t2: Tile, t3: Tile|
                        #![trigger self.l0.step(tile, post.l0, LayerResult::Escalate(t1)), self.l1.step(t1, post.l1, LayerResult::Escalate(t2)), self.l2.step(t2, post.l2, LayerResult::Escalate(t3))]
                        self.l0.step(tile, post.l0, LayerResult::Escalate(t1)) && self.l1.step(
                            t1,
                            post.l1,
                            LayerResult::Escalate(t2),
                        ) && self.l2.step(t2, post.l2, LayerResult::Escalate(t3)) && self.l3.step(
                            t3,
                            post.l3,
                            LayerResult::Resolved(out),
                        )
                } else {
                    exists|t1: Tile, t2: Tile, t3: Tile, t4: Tile|
                        #![trigger self.l0.step(tile, post.l0, LayerResult::Escalate(t1)), self.l1.step(t1, post.l1, LayerResult::Escalate(t2)), self.l2.step(t2, post.l2, LayerResult::Escalate(t3)), self.l3.step(t3, post.l3, LayerResult::Escalate(t4))]
                        self.l0.step(tile, post.l0, LayerResult::Escalate(t1)) && self.l1.step(
                            t1,
                            post.l1,
                            LayerResult::Escalate(t2),
                        ) && self.l2.step(t2, post.l2, LayerResult::Escalate(t3)) && self.l3.step(
                            t3,
                            post.l3,
                            LayerResult::Escalate(t4),
                        ) && self.l4.step(t4, post.l4, LayerResult::Resolved(out))
                }
            },
            None => exists|t1: Tile, t2: Tile, t3: Tile, t4: Tile|
                #![trigger self.l0.step(tile, post.l0, LayerResult::Escalate(t1)), self.l1.step(t1, post.l1, LayerResult::Escalate(t2)), self.l2.step(t2, post.l2, LayerResult::Escalate(t3)), self.l3.step(t3, post.l3, LayerResult::Escalate(t4))]
                self.l0.step(tile, post.l0, LayerResult::Escalate(t1)) && self.l1.step(
                    t1,
                    post.l1,
                    LayerResult::Escalate(t2),
                ) && self.l2.step(t2, post.l2, LayerResult::Escalate(t3)) && self.l3.step(
                    t3,
                    post.l3,
                    LayerResult::Escalate(t4),
                ) && self.l4.step(t4, post.l4, LayerResult::Escalate(out)),
        }
    }

    /// The first two layers on `tile`: layer 0 resolves with `out`, or it escalates and
    /// layer 1 resolves with `out`; with `at` equal to `None`, both escalate and layer 1 hands
    /// out `out`. The last three layers are not run.
    pub open spec fn front(self, tile: Tile, post: Self, out: Tile, at: Option<int>) -> bool {
        &&& self.untouched_from(post, 2)
        &&& match at {
            Some(i) => if i == 0 {
                &&& self.l0.step(tile, post.l0, LayerResult::Resolved(out))
                &&& post.l1 == self.l1
            } else {
                &&& i == 1
                &&& exists|t1: Tile|
                    #![trigger self.l0.step(tile, post.l0, LayerResult::Escalate(t1))]
                    self.l0.step(tile, post.l0, LayerResult::Escalate(t1)) && self.l1.step(
                        t1,
                        post.l1,
                        LayerResult::Resolved(out),
                    )
            },
            None => exists|t1: Tile|
                #![trigger self.l0.step(tile, post.l0, LayerResult::Escalate(t1))]
                self.l0.step(tile, post.l0, LayerResult::Escalate(t1)) && self.l1.step(
                    t1,
                    post.l1,
                    LayerResult::Escalate(out),
                ),
        }
    }

    /// The last three layers on `tile`, which the first two handed on: layer `i >= 2`
    /// resolves with `out` after the ones before it escalate, and the later ones are not run;
    /// with `at` equal to `None`, all three escalate and layer 4 hands out `out`. The first
    /// two layers are not run.
    pub open spec fn tail(self, tile: Tile, post: Self, out: Tile, at: Option<int>) -> bool {
        &&& post.l0 == self.l0
        &&& post.l1 == self.l1
        &&& match at {
            Some(i) => {
                &&& 2 <= i < 5
                &&& self.untouched_from(post, i + 1)
                &&& if i == 2 {
                    self.l2.step(tile, post.l2, LayerResult::Resolved(out))
                } else if i == 3 {
                    exists|t3: Tile|
                        #![trigger self.l2.step(tile, post.l2, LayerResult::Escalate(t3))]
                        self.l2.step(tile, post.l2, LayerResult::Escalate(t3)) && self.l3.step(
                            t3,
                            post.l3,
                            LayerResult::Resolved(out),
                        )
                } else {
                    exists|t3: Tile, t4: Tile|
                        #![trigger self.l2.step(tile, post.l2, LayerResult::Escalate(t3)), self.l3.step(t3, post.l3, LayerResult::Escalate(t4))]
                        self.l2.step(tile, post.l2, LayerResult::Escalate(t3)) && self.l3.step(
                            t3,
                            post.l3,
                            LayerResult::Escalate(t4),
                        ) && self.l4.step(t4, post.l4, LayerResult::Resolved(out))
                }
            },
            None => exists|t3: Tile, t4: Tile|
                #![trigger self.l2.step(tile, post.l2, LayerResult::Escalate(t3)), self.l3.step(t3, post.l3, LayerResult::Escalate(t4))]
                self.l2.step(tile, post.l2, LayerResult::Escalate(t3)) && self.l3.step(
                    t3,
                    post.l3,
                    LayerResult::Escalate(t4),
                ) && self.l4.step(t4, post.l4, LayerResult::Escalate(out)),
        }
    }

    /// Layer `i` of this chain may step from `t` to its state in `post` with answer `r`.
    #[verifier::opaque]
    pub open spec fn layer_step(self, i: int, t: Tile, post: Self, r: LayerResult) -> bool {
        if i == 0 {
            self.l0.step(t, post.l0, r)
        } else if i == 1 {
            self.l1.step(t, post.l1, r)
        } else if i == 2 {
            self.l2.step(t, post.l2, r)
        } else if i == 3 {
            self.l3.step(t, post.l3, r)
        } else {
            self.l4.step(t, post.l4, r)
        }
    }

    /// Layer `j` escalates the tile `ts[j]` it receives into `ts[j + 1]`.
    pub open spec fn hands_on(self, j: int, ts: Seq<Tile>, post: Self) -> bool {
        self.layer_step(j, ts[j], post, LayerResult::Escalate(ts[j + 1]))
    }

    /// The tiles a run hands from layer to layer: `ts[j]` is the tile layer `j` receives,
    /// every layer before the last one run escalates `ts[j]` into `ts[j + 1]`, and the last
    /// one run (layer `i` for a resolution at `i`, else layer 4) answers with `out`.
    pub proof fn lemma_run_trace(self, tile: Tile, post: Self, out: Tile, at: Option<int>) -> (ts: Seq<
        Tile,
    >)
        requires
            self.run(tile, post, out, at),
        ensures
            ts.len() == last_run(at) + 1,
            ts[0] == tile,
            forall|j: int| 0 <= j < last_run(at) ==> #[trigger] self.hands_on(j, ts, post),
            self.layer_step(
                last_run(at),
                ts[last_run(at)],
                post,
                if at is Some {
                    LayerResult::Resolved(out)
                } else {
                    LayerResult::Escalate(out)
                },
            ),
    {
        reveal(SignalChain::layer_step);
        if at == Some(0int) {
            seq![tile]
        } else if at == Some(1int) {
            let t1 = choose|t1: Tile|
                self.l0.step(tile, post.l0, LayerResult::Escalate(t1)) && self.l1.step(
                    t1,
                    post.l1,
                    LayerResult::Resolved(out),
                );
            seq![tile, t1]
        } else if at == Some(2int) {
            let (t1, t2) = choose|t1: Tile, t2: Tile|
                self.l0.step(tile, post.l0, LayerResult::Escalate(t1)) && self.l1.step(
                    t1,
                    post.l1,
                    LayerResult::Escalate(t2),
                ) && self.l2.step(t2, post.l2, LayerResult::Resolved(out));
            seq![tile, t1, t2]
        } else if at == Some(3int) {
            let (t1, t2, t3) = choose|t1: Tile, t2: Tile, t3: Tile|
                self.l0.step(tile, post.l0, LayerResult::Escalate(t1)) && self.l1.step(
                    t1,
                    post.l1,
                    LayerResult::Escalate(t2),
                ) && self.l2.step(t2, post.l2, LayerResult::Escalate(t3)) && self.l3.step(
                    t3,
                    post.l3,
                    LayerResult::Resolved(out),
                );
            seq![tile, t1, t2, t3]
        } else {
            let last = if at is Some {
                LayerResult::Resolved(out)
            } else {
                LayerResult::Escalate(out)
            };
            let (t1, t2, t3, t4) = choose|t1: Tile, t2: Tile, t3: Tile, t4: Tile|
                self.l0.step(tile, post.l0, LayerResult::Escalate(t1)) && self.l1.step(
                    t1,
                    post.l1,
                    LayerResult::Escalate(t2),
                ) && self.l2.step(t2, post.l2, LayerResult::Escalate(t3)) && self.l3.step(
                    t3,
                    post.l3,
                    LayerResult::Escalate(t4),
                ) && self.l4.step(t4, post.l4, last);
            seq![tile, t1, t2, t3, t4]
        }
    }

    /// This chain with its last three layers taken from `other`.
    pub open spec fn with_tail_from(self, other: Self) -> Self {
        SignalChain { l2: other.l2, l3: other.l3, l4: other.l4, ..self }
    }

    /// A run that one of the first two layers resolves is a run of the chain.
    pub proof fn lemma_front_resolved_is_run(self, tile: Tile, post: Self, out: Tile, i: int)
        requires
            self.front(tile, post, out, Some(i)),
        ensures
            self.run(tile, post, out, Some(i)),
    {
    }

    /// The first two layers handing a tile on, then the last three layers (as they stand in
    /// `mid2`) running on it, make one run of the chain with those last three layers.
    pub proof fn lemma_front_then_tail(
        self,
        tile: Tile,
        mid: Self,
        handed: Tile,
        mid2: Self,
        post: Self,
        out: Tile,
        at: Option<int>,
    )
        requires
            self.front(tile, mid, handed, None),
            mid2.l0 == mid.l0,
            mid2.l1 == mid.l1,
            mid2.tail(handed, post, out, at),
        ensures
            self.with_tail_from(mid2).run(tile, post, out, at),
    {
        let c = self.with_tail_from(mid2);
        let t1 = choose|t1: Tile|
            self.l0.step(tile, mid.l0, LayerResult::Escalate(t1)) && self.l1.step(
                t1,
                mid.l1,
                LayerResult::Escalate(handed),
            );
        assert(c.l0.step(tile, post.l0, LayerResult::Escalate(t1)));
        assert(c.l1.step(t1, post.l1, LayerResult::Escalate(handed)));
        match at {
            Some(i) => {
                if i == 2 {
                    assert(c.l2.step(handed, post.l2, LayerResult::Resolved(out)));
                } else if i == 3 {
                    let t3 = choose|t3: Tile|
                        mid2.l2.step(handed, post.l2, LayerResult::Escalate(t3)) && mid2.l3.step(
                            t3,
                            post.l3,
                            LayerResult::Resolved(out),
                        );
                    assert(c.l2.step(handed, post.l2, LayerResult::Escalate(t3)));
                } else {
                    let (t3, t4) = choose|t3: Tile, t4: Tile|
                        mid2.l2.step(handed, post.l2, LayerResult::Escalate(t3)) && mid2.l3.step(
                            t3,
                            post.l3,
                            LayerResult::Escalate(t4),
                        ) && mid2.l4.step(t4, post.l4, LayerResult::Resolved(out));
                    assert(c.l2.step(handed, post.l2, LayerResult::Escalate(t3)));
                    assert(c.l3.step(t3, post.l3, LayerResult::Escalate(t4)));
                }
            },
            None => {
                let (t3, t4) = choose|t3: Tile, t4: Tile|
                    mid2.l2.step(handed, post.l2, LayerResult::Escalate(t3)) && mid2.l3.step(
                        t3,
                        post.l3,
                        LayerResult::Escalate(t4),
                    ) && mid2.l4.step(t4, post.l4, LayerResult::Escalate(out));
                assert(c.l2.step(handed, post.l2, LayerResult::Escalate(t3)));
                assert(c.l3.step(t3, post.l3, LayerResult::Escalate(t4)));
            },
        }
    }

    /// How the statistics change when a tile is resolved at `at` (or at no layer) after a
    /// run of `latency` nanoseconds.
    pub open spec fn stats_after(self, post: Self, at: Option<int>, latency: u64) -> bool {
        let (pre, st) = (self.stats, post.stats);
        &&& st.total_processed == pre.total_processed + 1
        &&& st.total_latency_ns == add_saturating(pre.total_latency_ns, latency)
        &&& match at {
            Some(i) => {
                let name = self.layer_name(i);
                &&& st.resolved_count == pre.resolved_count + 1
                &&& st.unresolved_count == pre.unresolved_count
                &&& st.resolution_by_layer@ == pre.resolution_by_layer@.insert(
                    name,
                    (pre.resolution_by_layer.count_of(name) + 1) as u64,
                )
                &&& st.last_resolution_layer matches Some(label) && label@ == resolution_label(i, name)
            },
            None => {
                &&& st.resolved_count == pre.resolved_count
                &&& st.unresolved_count == pre.unresolved_count + 1
                &&& st.resolution_by_layer@ == pre.resolution_by_layer@
                &&& st.last_resolution_layer is None
            },
        }
    }

    /// Create a new chain from five layers, with fresh statistics.
    pub fn new(l0: L0, l1: L1, l2: L2, l3: L3, l4: L4) -> (c: Self)
        ensures
            c.l0 == l0,
            c.l1 == l1,
            c.l2 == l2,
            c.l3 == l3,
            c.l4 == l4,
            c.stats.is_fresh(),
            c.stats.consistent(),
    {
        SignalChain { l0, l1, l2, l3, l4, stats: ChainStats::default() }
    }

    fn name_at(&self, i: usize) -> (n: &'static str)
        requires
            i < 5,
        ensures
            n@ == self.layer_name(i as int),
    {
        if i == 0 {
            self.l0.name()
        } else if i == 1 {
            self.l1.name()
        } else if i == 2 {
            self.l2.name()
        } else if i == 3 {
            self.l3.name()
        } else {
            self.l4.name()
        }
    }

    /// Run the first two layers on `tile`.
    fn run_front(&mut self, tile: Tile) -> (r: (Tile, Option<usize>))
        requires
            old(self).l0.wf(),
            old(self).l1.wf(),
        ensures
            final(self).l0.wf(),
            final(self).l1.wf(),
            final(self).stats == old(self).stats,
            forall|i: int| 0 <= i < 5 ==> #[trigger] final(self).layer_name(i) == old(self).layer_name(i),
            old(self).front(tile, *final(self), r.0, as_int(r.1)),
    {
        let ghost pre = *self;
        let t1 = match self.l0.process(tile) {
            LayerResult::Resolved(t) => {
                return (t, Some(0));
            },
            LayerResult::Escalate(t) => t,
        };
        let ghost g1 = t1;
        let r = self.l1.process(t1);
        assert(pre.l0.step(tile, self.l0, LayerResult::Escalate(g1)));
        match r {
            LayerResult::Resolved(t) => (t, Some(1)),
            LayerResult::Escalate(t) => (t, None),
        }
    }

    /// Run the last three layers on `tile`, which the first two handed on.
    fn run_tail(&mut self, tile: Tile) -> (r: (Tile, Option<usize>))
        requires
            old(self).l2.wf(),
            old(self).l3.wf(),
            old(self).l4.wf(),
        ensures
            final(self).l2.wf(),
            final(self).l3.wf(),
            final(self).l4.wf(),
            final(self).stats == old(self).stats,
            forall|i: int| 0 <= i < 5 ==> #[trigger] final(self).layer_name(i) == old(self).layer_name(i),
            r.1 matches Some(i) ==> 2 <= i < 5,
            old(self).tail(tile, *final(self), r.0, as_int(r.1)),
    {
        let ghost pre = *self;
        let t3 = match self.l2.process(tile) {
            LayerResult::Resolved(t) => {
                return (t, Some(2));
            },
            LayerResult::Escalate(t) => t,
        };
        let ghost g3 = t3;
        let t4 = match self.l3.process(t3) {
            LayerResult::Resolved(t) => {
                assert(pre.l2.step(tile, self.l2, LayerResult::Escalate(g3)));
                return (t, Some(3));
            },
            LayerResult::Escalate(t) => t,
        };
        let ghost g4 = t4;
        let r = self.l4.process(t4);
        assert(pre.l2.step(tile, self.l2, LayerResult::Escalate(g3)));
        assert(pre.l3.step(g3, self.l3, LayerResult::Escalate(g4)));
        match r {
            LayerResult::Resolved(t) => (t, Some(4)),
            LayerResult::Escalate(t) => (t, None),
        }
    }

    /// Record a run that ended with `out`, resolved at `at` (or at no layer), and started at
    /// `start`.
    fn finish(&mut self, out: Tile, at: Option<usize>, start: &Instant) -> (res: ChainResult)
        requires
            old(self).wf(),
            old(self).stats.total_processed < u64::MAX,
            at matches Some(i) ==> i < 5,
        ensures
            final(self).wf(),
            final(self).l0 == old(self).l0,
            final(self).l1 == old(self).l1,
            final(self).l2 == old(self).l2,
            final(self).l3 == old(self).l3,
            final(self).l4 == old(self).l4,
            res.tile == out,
            forall|i: int| 0 <= i < 5 ==> #[trigger] final(self).layer_name(i) == old(self).layer_name(i),
            match res.resolved_at {
                Some((i, name)) => at == Some(i) && name@ == old(self).layer_name(i as int),
                None => at is None,
            },
            old(self).stats_after(*final(self), as_int(at), res.latency),
    {
        let ghost pre = *self;
        let elapsed = elapsed_since(start);
        let latency = #[verifier::truncate] (duration_nanos(&elapsed) as u64);
        self.stats.total_processed = self.stats.total_processed + 1;
        self.stats.total_latency_ns = self.stats.total_latency_ns.saturating_add(latency);
        let resolved_at = match at {
            Some(i) => {
                let name = self.name_at(i);
                assert(name@ == pre.layer_name(i as int));
                proof {
                    pre.stats.resolution_by_layer.lemma_count_le_total(name@);
                }
                self.stats.resolved_count = self.stats.resolved_count + 1;
                self.stats.resolution_by_layer.increment(name);
                let mut label = String::from_str("L");
                push_digits(&mut label, i as u64);
                label.append(": ");
                label.append(name);
                assert(label@ =~= resolution_label(i as int, name@));
                self.stats.last_resolution_layer = Some(label);
                Some((i, String::from_str(name)))
            },
            None => {
                self.stats.unresolved_count = self.stats.unresolved_count + 1;
                self.stats.last_resolution_layer = None;
                None
            },
        };
        proof {
            assert forall|i: int| 0 <= i < 5 implies #[trigger] self.layer_name(i) == pre.layer_name(i) by {
            }
            assert forall|k: Seq<char>| #[trigger] self.stats.resolution_by_layer@.dom().contains(k)
                implies exists|j: int| 0 <= j < 5 && k == self.layer_name(j) by {
                if pre.stats.resolution_by_layer@.dom().contains(k) {
                    let j = choose|j: int| 0 <= j < 5 && k == pre.layer_name(j);
                    assert(self.layer_name(j) == pre.layer_name(j));
                } else {
                    let i = at.unwrap() as int;
                    assert(self.layer_name(i) == pre.layer_name(i));
                }
            }
        }
        ChainResult { tile: out, resolved_at, latency }
    }

    /// Process a tile through the chain and record the outcome in the statistics.
    pub fn process(&mut self, tile: Tile) -> (res: ChainResult)
        requires
            old(self).wf(),
            old(self).stats.total_processed < u64::MAX,
        ensures
            final(self).wf(),
            forall|i: int| 0 <= i < 5 ==> #[trigger] final(self).layer_name(i) == old(self).layer_name(i),
            match res.resolved_at {
                Some((i, name)) => {
                    &&& name@ == old(self).layer_name(i as int)
                    &&& old(self).run(tile, *final(self), res.tile, Some(i as int))
                    &&& old(self).stats_after(*final(self), Some(i as int), res.latency)
                },
                None => {
                    &&& old(self).run(tile, *final(self), res.tile, None)
                    &&& old(self).stats_after(*final(self), None, res.latency)
                },
            },
            final(self).stats.total_processed == old(self).stats.total_processed + 1,
            match res.resolved_at {
                Some((i, name)) => {
                    &&& final(self).stats.resolved_count == old(self).stats.resolved_count + 1
                    &&& final(self).stats.unresolved_count == old(self).stats.unresolved_count
                    &&& final(self).stats.last_resolution_layer matches Some(label) && label@ == "L"@
                        + decimal(i as int) + ": "@ + name@
                },
                None => {
                    &&& final(self).stats.resolved_count == old(self).stats.resolved_count
                    &&& final(self).stats.unresolved_count == old(self).stats.unresolved_count + 1
                    &&& final(self).stats.resolution_by_layer@ == old(self).stats.resolution_by_layer@
                    &&& final(self).stats.last_resolution_layer is None
                },
            },
    {
        let ghost pre = *self;
        let start = instant_now();
        let (handed, at) = self.run_front(tile);
        let ghost mid = *self;
        proof {
            self.lemma_same_names_keep_wf(pre);
        }
        if at.is_some() {
            let res = self.finish(handed, at, &start);
            proof {
                pre.lemma_front_resolved_is_run(tile, mid, handed, as_int(at).unwrap());
                assert(pre.run(tile, *self, handed, as_int(at)));
                pre.lemma_stats_after_same(mid, *self, as_int(at), res.latency);
            }
            return res;
        }
        let ghost t2 = handed;
        let (out, at2) = self.run_tail(handed);
        let ghost mid2 = *self;
        proof {
            pre.lemma_front_then_tail(tile, mid, t2, mid, mid2, out, as_int(at2));
            assert(pre.with_tail_from(mid) == pre);
            self.lemma_same_names_keep_wf(pre);
        }
        let res = self.finish(out, at2, &start);
        proof {
            assert(pre.run(tile, *self, out, as_int(at2)));
            pre.lemma_stats_after_same(mid2, *self, as_int(at2), res.latency);
        }
        res
    }

    /// A chain whose layers have the names and well-formedness of `pre`, and whose
    /// statistics are those of `pre`, is well-formed when `pre` is.
    proof fn lemma_same_names_keep_wf(self, pre: Self)
        requires
            pre.wf(),
            self.l0.wf(),
            self.l1.wf(),
            self.l2.wf(),
            self.l3.wf(),
            self.l4.wf(),
            self.stats == pre.stats,
            forall|i: int| 0 <= i < 5 ==> #[trigger] self.layer_name(i) == pre.layer_name(i),
        ensures
            self.wf(),
    {
        assert forall|k: Seq<char>| #[trigger] self.stats.resolution_by_layer@.dom().contains(k)
            implies exists|j: int| 0 <= j < 5 && k == self.layer_name(j) by {
            let j = choose|j: int| 0 <= j < 5 && k == pre.layer_name(j);
            assert(self.layer_name(j) == pre.layer_name(j));
        }
    }

    /// The statistics change the same way from `self` as from a chain `mid` with the same
    /// statistics and layer names.
    proof fn lemma_stats_after_same(self, mid: Self, post: Self, at: Option<int>, latency: u64)
        requires
            mid.stats == self.stats,
            forall|i: int| 0 <= i < 5 ==> #[trigger] mid.layer_name(i) == self.layer_name(i),
            mid.stats_after(post, at, latency),
            at matches Some(i) ==> 0 <= i < 5,
        ensures
            self.stats_after(post, at, latency),
    {
        if at is Some {
            assert(mid.layer_name(at.unwrap()) == self.layer_name(at.unwrap()));
        }
    }

    /// A snapshot of the chain statistics.
    pub fn get_stats(&self) -> (s: ChainStats)
        ensures
            s.same_as(self.stats),
            self.stats.consistent() ==> s.consistent(),
    {
        self.stats.clone()
    }
}

/// A tile that has passed the first two layers of a chain and waits at L2 for the model's
/// answer to a prompt.
pub struct PendingTile {
    tile: Tile,
    prompt: String,
    start: Instant,
}

impl PendingTile {
    /// The tile waiting at L2.
    pub closed spec fn waiting_tile(self) -> Tile {
        self.tile
    }

    /// The prompt to send to the model.
    pub closed spec fn prompt_view(self) -> Seq<char> {
        self.prompt@
    }

    /// The prompt to send to the model.
    pub fn prompt(&self) -> (p: &str)
        ensures
            p@ == self.prompt_view(),
    {
        self.prompt.as_str()
    }
}

/// Where a run of a chain with a language model at L2 stands.
pub enum ChainStep {
    /// The run is over.
    Finished(ChainResult),
    /// The run waits for the model's answer to the tile's prompt.
    AskModel(PendingTile),
}

impl<L0: Layer, L1: Layer, L3: Layer, L4: Layer> SignalChain<L0, L1, ModelLayer, L3, L4> {
    /// The first two layers escalate `tile` and hand on a tile without a reading, leaving
    /// them as they stand in `post`.
    pub open spec fn hands_on_without_reading(self, tile: Tile, post: Self) -> bool {
        exists|mid: Self, handed: Tile|
            #![trigger self.front(tile, mid, handed, None)]
            self.front(tile, mid, handed, None) && mid.l0 == post.l0 && mid.l1 == post.l1
                && handed.sensor_reading is None
    }

    /// This chain with its model holding `answer`.
    pub open spec fn answering(self, answer: Option<String>) -> Self {
        SignalChain { l2: ModelLayer { answer, ..self.l2 }, ..self }
    }

    /// Start a run of `tile`. When the first two layers escalate a tile with a reading, the
    /// run stops and asks for the model's answer to the prompt for that reading; otherwise
    /// it runs to its end, as `process` does, and is recorded.
    pub fn begin(&mut self, tile: Tile) -> (step: ChainStep)
        requires
            old(self).wf(),
            old(self).stats.total_processed < u64::MAX,
        ensures
            final(self).wf(),
            forall|i: int| 0 <= i < 5 ==> #[trigger] final(self).layer_name(i) == old(self).layer_name(i),
            match step {
                ChainStep::Finished(res) => {
                    &&& match res.resolved_at {
                        Some((i, name)) => {
                            &&& name@ == old(self).layer_name(i as int)
                            &&& old(self).run(tile, *final(self), res.tile, Some(i as int))
                            &&& old(self).stats_after(*final(self), Some(i as int), res.latency)
                        },
                        None => {
                            &&& old(self).run(tile, *final(self), res.tile, None)
                            &&& old(self).stats_after(*final(self), None, res.latency)
                        },
                    }
                    &&& (res.resolved_at matches Some((i, _)) && i < 2)
                        || old(self).hands_on_without_reading(tile, *final(self))
                    &&& final(self).stats.total_processed == old(self).stats.total_processed + 1
                    &&& match res.resolved_at {
                        Some((i, name)) => {
                            &&& final(self).stats.resolved_count == old(self).stats.resolved_count + 1
                            &&& final(self).stats.unresolved_count == old(self).stats.unresolved_count
                            &&& final(self).stats.last_resolution_layer matches Some(label) && label@
                                == "L"@ + decimal(i as int) + ": "@ + name@
                        },
                        None => {
                            &&& final(self).stats.resolved_count == old(self).stats.resolved_count
                            &&& final(self).stats.unresolved_count == old(self).stats.unresolved_count + 1
                            &&& final(self).stats.resolution_by_layer@
                                == old(self).stats.resolution_by_layer@
                            &&& final(self).stats.last_resolution_layer is None
                        },
                    }
                },
                ChainStep::AskModel(p) => {
                    &&& old(self).front(tile, *final(self), p.waiting_tile(), None)
                    &&& final(self).stats == old(self).stats
                    &&& p.waiting_tile().sensor_reading matches Some(r) && p.prompt_view()
                        == prompt_text(old(self).l2.model.prompt_template@, r)
                },
            },
    {
        let ghost pre = *self;
        let start = instant_now();
        let (handed, at) = self.run_front(tile);
        let ghost mid = *self;
        proof {
            self.lemma_same_names_keep_wf(pre);
        }
        if at.is_some() {
            let res = self.finish(handed, at, &start);
            proof {
                pre.lemma_front_resolved_is_run(tile, mid, handed, as_int(at).unwrap());
                assert(pre.run(tile, *self, handed, as_int(at)));
                pre.lemma_stats_after_same(mid, *self, as_int(at), res.latency);
            }
            return ChainStep::Finished(res);
        }
        match self.l2.model.prompt_for(&handed) {
            Some(prompt) => ChainStep::AskModel(PendingTile { tile: handed, prompt, start }),
            None => {
                let ghost t2 = handed;
                let (out, at2) = self.run_tail(handed);
                let ghost mid2 = *self;
                proof {
                    pre.lemma_front_then_tail(tile, mid, t2, mid, mid2, out, as_int(at2));
                    assert(pre.with_tail_from(mid) == pre);
                    self.lemma_same_names_keep_wf(pre);
                }
                let res = self.finish(out, at2, &start);
                proof {
                    assert(pre.run(tile, *self, out, as_int(at2)));
                    pre.lemma_stats_after_same(mid2, *self, as_int(at2), res.latency);
                }
                ChainStep::Finished(res)
            },
        }
    }

    /// Finish a run that waited for the model: the model layer takes `answer` (`None` when
    /// the request failed) and the last three layers run on the waiting tile; the run is
    /// recorded with the time since it began. The model lets go of the answer afterwards,
    /// so no later tile is resolved with it.
    pub fn resume(&mut self, pending: PendingTile, answer: Option<String>) -> (res: ChainResult)
        requires
            old(self).wf(),
            old(self).stats.total_processed < u64::MAX,
        ensures
            final(self).wf(),
            final(self).l2.answer is None,
            forall|i: int| 0 <= i < 5 ==> #[trigger] final(self).layer_name(i) == old(self).layer_name(i),
            match res.resolved_at {
                Some((i, name)) => {
                    &&& 2 <= i < 5
                    &&& name@ == old(self).layer_name(i as int)
                    &&& old(self).answering(answer).tail(
                        pending.waiting_tile(),
                        final(self).answering(answer),
                        res.tile,
                        Some(i as int),
                    )
                    &&& old(self).stats_after(*final(self), Some(i as int), res.latency)
                },
                None => {
                    &&& old(self).answering(answer).tail(
                        pending.waiting_tile(),
                        final(self).answering(answer),
                        res.tile,
                        None,
                    )
                    &&& old(self).stats_after(*final(self), None, res.latency)
                },
            },
            final(self).stats.total_processed == old(self).stats.total_processed + 1,
            match res.resolved_at {
                Some((i, name)) => {
                    &&& final(self).stats.resolved_count == old(self).stats.resolved_count + 1
                    &&& final(self).stats.unresolved_count == old(self).stats.unresolved_count
                    &&& final(self).stats.last_resolution_layer matches Some(label) && label@ == "L"@
                        + decimal(i as int) + ": "@ + name@
                },
                None => {
                    &&& final(self).stats.resolved_count == old(self).stats.resolved_count
                    &&& final(self).stats.unresolved_count == old(self).stats.unresolved_count + 1
                    &&& final(self).stats.resolution_by_layer@ == old(self).stats.resolution_by_layer@
                    &&& final(self).stats.last_resolution_layer is None
                },
            },
    {
        let ghost pre = *self;
        let PendingTile { tile, prompt: _, start } = pending;
        self.l2.answer = answer;
        let ghost mid = *self;
        assert(mid == pre.answering(answer));
        let (out, at) = self.run_tail(tile);
        let ghost ran = *self;
        self.l2.answer = None;
        let ghost mid2 = *self;
        proof {
            assert(mid.tail(tile, ran, out, as_int(at)));
            if at == Some(3usize) {
                let t3 = choose|t3: Tile|
                    mid.l2.step(tile, ran.l2, LayerResult::Escalate(t3)) && mid.l3.step(
                        t3,
                        ran.l3,
                        LayerResult::Resolved(out),
                    );
            } else if at == Some(4usize) {
                let (t3, t4) = choose|t3: Tile, t4: Tile|
                    mid.l2.step(tile, ran.l2, LayerResult::Escalate(t3)) && mid.l3.step(
                        t3,
                        ran.l3,
                        LayerResult::Escalate(t4),
                    ) && mid.l4.step(t4, ran.l4, LayerResult::Resolved(out));
            } else if at is None {
                let (t3, t4) = choose|t3: Tile, t4: Tile|
                    mid.l2.step(tile, ran.l2, LayerResult::Escalate(t3)) && mid.l3.step(
                        t3,
                        ran.l3,
                        LayerResult::Escalate(t4),
                    ) && mid.l4.step(t4, ran.l4, LayerResult::Escalate(out));
            }
            assert(ran.l2 == mid.l2);
            assert(forall|i: int| 0 <= i < 5 ==> #[trigger] mid.layer_name(i) == pre.layer_name(i));
            assert(forall|i: int| 0 <= i < 5 ==> #[trigger] mid2.layer_name(i) == ran.layer_name(i));
            self.lemma_same_names_keep_wf(pre);
        }
        let res = self.finish(out, at, &start);
        proof {
            assert(self.answering(answer).l2 == ran.l2);
            assert(self.answering(answer).l0 == ran.l0 && self.answering(answer).l1 == ran.l1);
            assert(self.answering(answer).l3 == ran.l3 && self.answering(answer).l4 == ran.l4);
            assert(mid.tail(tile, self.answering(answer), out, as_int(at)));
            pre.lemma_stats_after_same(mid2, *self, as_int(at), res.latency);
        }
        res
    }

    /// A run split at the model is one run of the chain whose model holds the answer it was
    /// given: the first two layers hand the tile on, the model and the last two layers run
    /// on it.
    pub proof fn lemma_model_run(
        self,
        tile: Tile,
        mid: Self,
        handed: Tile,
        answer: Option<String>,
        post: Self,
        out: Tile,
        at: Option<int>,
    )
        requires
            self.front(tile, mid, handed, None),
            mid.answering(answer).tail(handed, post, out, at),
        ensures
            self.answering(answer).run(tile, post, out, at),
    {
        self.lemma_front_then_tail(tile, mid, handed, mid.answering(answer), post, out, at);
        assert(self.with_tail_from(mid.answering(answer)) == self.answering(answer));
    }
}

} // verus!
