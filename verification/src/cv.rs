//! Gate / trigger inputs: a Schmitt trigger with edge detection. The
//! voltage side (the two thresholds) classifies each sample into a
//! [`GateLevel`]; the state machine here turns levels into edges.

use vstd::prelude::*;

verus! {

/// A rising / falling / steady classification of a gate edge this sample.
#[derive(Clone, Copy, Debug, PartialEq, Eq, Structural)]
pub enum Edge {
    /// The input just went high (a trigger: strike, note-on, clock).
    Rising,
    /// The input just went low (a release / note-off).
    Falling,
    /// No transition.
    Steady,
}

/// Where one sample of gate voltage sits against the Schmitt thresholds.
#[derive(Clone, Copy, Debug, PartialEq, Eq, Structural)]
pub enum GateLevel {
    /// Below the low threshold.
    Low,
    /// Between the thresholds (the hysteresis band), or not a number.
    Band,
    /// Above the high threshold.
    High,
}

/// A Schmitt-triggered gate input. It holds a high / low state and reports
/// the edges: it rises only from low on a `High` sample and falls only from
/// high on a `Low` sample, so noise inside the band never retriggers it.
#[derive(Clone, Copy, Debug)]
pub struct Gate {
    high: bool,
}

impl View for Gate {
    type V = bool;

    closed spec fn view(&self) -> bool {
        self.high
    }
}

/// A gate input's next state and edge for one sample.
pub open spec fn gate_step(high: bool, level: GateLevel) -> (bool, Edge) {
    if high {
        if level == GateLevel::Low {
            (false, Edge::Falling)
        } else {
            (true, Edge::Steady)
        }
    } else if level == GateLevel::High {
        (true, Edge::Rising)
    } else {
        (false, Edge::Steady)
    }
}

impl Gate {
    /// A gate starting low.
    pub fn new() -> (g: Gate)
        ensures
            g@ == false,
    {
        Gate { high: false }
    }

    /// Whether this input is currently high.
    pub fn is_high(&self) -> (r: bool)
        ensures
            r == self@,
    {
        self.high
    }

    /// Process one sample's level, returning the edge (if any).
    pub fn process(&mut self, level: GateLevel) -> (e: Edge)
        ensures
            (final(self)@, e) == gate_step(old(self)@, level),
            e == Edge::Rising <==> (!old(self)@ && final(self)@),
            e == Edge::Falling <==> (old(self)@ && !final(self)@),
    {
        if self.high {
            if matches!(level, GateLevel::Low) {
                self.high = false;
                return Edge::Falling;
            }
        } else if matches!(level, GateLevel::High) {
            self.high = true;
            return Edge::Rising;
        }
        Edge::Steady
    }
}

impl Default for Gate {
    fn default() -> (g: Gate)
        ensures
            g@ == false,
    {
        Gate::new()
    }
}

/// The state of a gate after a run of samples, and the edges it reports.
pub open spec fn gate_run(high: bool, levels: Seq<GateLevel>) -> (bool, Seq<Edge>)
    decreases levels.len(),
{
    if levels.len() == 0 {
        (high, Seq::empty())
    } else {
        let (h, e) = gate_step(high, levels[0]);
        let (h2, es) = gate_run(h, levels.drop_first());
        (h2, seq![e] + es)
    }
}

/// Over any run of samples the reported edges alternate: between two rising
/// edges there is always a falling one, and the other way round. Each edge
/// flips the input's state; every other sample leaves it as it was.
pub proof fn lemma_edges_alternate(high: bool, levels: Seq<GateLevel>, i: int, j: int)
    requires
        0 <= i < j < levels.len(),
        gate_run(high, levels).1[i] != Edge::Steady,
        gate_run(high, levels).1[i] == gate_run(high, levels).1[j],
    ensures
        exists|k: int|
            i < k < j && #[trigger] gate_run(high, levels).1[k] != Edge::Steady
                && gate_run(high, levels).1[k] != gate_run(high, levels).1[i],
    decreases levels.len(),
{
    let (h, e0) = gate_step(high, levels[0]);
    let rest = levels.drop_first();
    lemma_run_len(high, levels);
    lemma_run_len(h, rest);
    if i == 0 {
        lemma_first_edge_after(h, rest, j - 1, e0);
        let k = choose|k: int|
            0 <= k < j - 1 && #[trigger] gate_run(h, rest).1[k] != Edge::Steady && gate_run(h, rest).1[k] != e0;
        assert(gate_run(high, levels).1[k + 1] == gate_run(h, rest).1[k]);
    } else {
        assert(gate_run(high, levels).1[i] == gate_run(h, rest).1[i - 1]);
        assert(gate_run(high, levels).1[j] == gate_run(h, rest).1[j - 1]);
        lemma_edges_alternate(h, rest, i - 1, j - 1);
        let k = choose|k: int|
            i - 1 < k < j - 1 && #[trigger] gate_run(h, rest).1[k] != Edge::Steady
                && gate_run(h, rest).1[k] != gate_run(h, rest).1[i - 1];
        assert(gate_run(high, levels).1[k + 1] == gate_run(h, rest).1[k]);
    }
}

proof fn lemma_run_len(high: bool, levels: Seq<GateLevel>)
    ensures
        gate_run(high, levels).1.len() == levels.len(),
    decreases levels.len(),
{
    if levels.len() > 0 {
        lemma_run_len(gate_step(high, levels[0]).0, levels.drop_first());
    }
}

/// After an edge `e` the input is in the state `e` leads to, so the next edge
/// within `j` further samples, if a same-kind edge comes, is preceded by an
/// opposite one.
proof fn lemma_first_edge_after(h: bool, levels: Seq<GateLevel>, j: int, e: Edge)
    requires
        e != Edge::Steady,
        h == (e == Edge::Rising),
        0 <= j < levels.len(),
        gate_run(h, levels).1[j] == e,
    ensures
        exists|k: int|
            0 <= k < j && #[trigger] gate_run(h, levels).1[k] != Edge::Steady && gate_run(h, levels).1[k]
                != e,
    decreases levels.len(),
{
    let (h1, e1) = gate_step(h, levels[0]);
    let rest = levels.drop_first();
    lemma_run_len(h1, rest);
    assert(gate_run(h, levels).1[0] == e1);
    if j == 0 {
        assert(e1 != e);
    } else {
        assert(gate_run(h, levels).1[j] == gate_run(h1, rest).1[j - 1]);
        if e1 == Edge::Steady {
            assert(h1 == h);
            lemma_first_edge_after(h1, rest, j - 1, e);
            let k = choose|k: int|
                0 <= k < j - 1 && #[trigger] gate_run(h1, rest).1[k] != Edge::Steady && gate_run(h1, rest).1[k] != e;
            assert(gate_run(h, levels).1[k + 1] == gate_run(h1, rest).1[k]);
        } else {
            assert(e1 != e);
        }
    }
}

} // verus!
