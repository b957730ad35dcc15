//! Proof-graph claim propagation: the verifier side of stitching per-node
//! GKR sub-proofs together over a DAG of circuits.
use vstd::prelude::*;

verus! {

/// An evaluation claim in the mathematical model: a point and a value.
pub type Claim = (Seq<u64>, u64);

/// Which output of a node a claim is about.
#[derive(Clone, Copy, Debug, PartialEq, Eq, Structural)]
pub enum NodeOutputType {
    /// The final output layer of node `id`.
    OutputLayer(usize),
    /// The named intermediate witness output `wire` of node `id`.
    WireOut(usize, usize),
}

/// How one input of a node is supplied.
#[derive(Clone, Copy, Debug, PartialEq, Eq, Structural)]
pub enum PredType {
    /// No producer inside the graph: an external commitment target.
    Source,
    /// Exactly one output of an earlier node, with the same instance count.
    PredWire(NodeOutputType),
    /// An output of an earlier node with fewer instances than the consumer.
    PredWireDup(NodeOutputType),
}

/// An evaluation claim: the multilinear extension at `point` equals `eval`.
#[derive(Debug)]
pub struct PointAndEval {
    pub point: Vec<u64>,
    pub eval: u64,
}

impl View for PointAndEval {
    type V = Claim;

    open spec fn view(&self) -> Claim {
        (self.point@, self.eval)
    }
}

impl PointAndEval {
    pub fn new(point: Vec<u64>, eval: u64) -> (r: Self)
        ensures
            r@ == (point@, eval),
    {
        PointAndEval { point, eval }
    }

    pub fn duplicate(&self) -> (r: Self)
        ensures
            r@ == self@,
    {
        PointAndEval { point: self.point.clone(), eval: self.eval }
    }
}

/// One node of the graph: its sub-circuit's number of witness outputs and
/// its typed predecessor edges, one per input.
#[derive(Debug)]
pub struct CircuitNode {
    pub id: usize,
    pub n_witness_out: usize,
    pub preds: Vec<PredType>,
}

/// A DAG of circuits listed in topological order, with the outputs whose
/// evaluations are claimed from outside.
#[derive(Debug)]
pub struct CircuitGraph {
    pub nodes: Vec<CircuitNode>,
    pub targets: Vec<NodeOutputType>,
}

/// The log2 instance count of each node.
#[derive(Debug)]
pub struct CircuitGraphAuxInfo {
    pub instance_num_vars: Vec<usize>,
}

/// Claimed evaluations, one per target of the graph, in the same order.
#[derive(Debug)]
pub struct TargetEvaluations(pub Vec<PointAndEval>);

/// Why a graph verification was aborted.
#[derive(Clone, Copy, Debug, PartialEq, Eq, Structural)]
pub enum GKRGraphError {
    /// The graph or its instance counts are malformed.
    MalformedGraph,
    /// A node's sub-verifier returned a number of claims other than its
    /// number of predecessors.
    ClaimCountMismatch,
    /// A claim forwarded over a duplicated wire has fewer coordinates than
    /// the consumer's instance count.
    PointTooShort,
    /// A second claim was written into a witness-output slot.
    DuplicateClaim,
    /// The number of per-node sub-verification outcomes differs from the
    /// number of nodes.
    ProofCountMismatch,
    /// A node's single-circuit sub-verifier rejected its sub-proof.
    SubProofRejected,
}

/// The node that owns output `o`.
pub open spec fn node_of(o: NodeOutputType) -> int {
    match o {
        NodeOutputType::OutputLayer(id) => id as int,
        NodeOutputType::WireOut(id, _) => id as int,
    }
}

/// `o` names an existing output of a node with index below `bound`.
pub open spec fn output_ok(g: CircuitGraph, o: NodeOutputType, bound: int) -> bool {
    &&& 0 <= node_of(o) < bound
    &&& bound <= g.nodes@.len()
    &&& match o {
        NodeOutputType::OutputLayer(_) => true,
        NodeOutputType::WireOut(id, w) => w < g.nodes@[id as int].n_witness_out,
    }
}

/// Edge `p` of node `i` names an output of an earlier node, and a
/// duplicated wire comes from a node with no more instances than `i`.
pub open spec fn pred_ok(g: CircuitGraph, vars: Seq<usize>, i: int, p: PredType) -> bool {
    match p {
        PredType::Source => true,
        PredType::PredWire(o) => output_ok(g, o, i),
        PredType::PredWireDup(o) => output_ok(g, o, i) && vars[node_of(o)] <= vars[i],
    }
}

/// The graph is well formed: nodes are numbered by position, every edge
/// points to an output of an earlier node, a duplicated wire never goes
/// from more instances to fewer, and every target names an existing output.
pub open spec fn graph_wf(g: CircuitGraph, aux: CircuitGraphAuxInfo) -> bool {
    &&& aux.instance_num_vars@.len() == g.nodes@.len()
    &&& forall|i: int| 0 <= i < g.nodes@.len() ==> #[trigger] g.nodes@[i].id == i
    &&& forall|i: int, k: int|
        0 <= i < g.nodes@.len() && 0 <= k < g.nodes@[i].preds@.len() ==> pred_ok(
            g,
            aux.instance_num_vars@,
            i,
            #[trigger] g.nodes@[i].preds@[k],
        )
    &&& forall|t: int|
        0 <= t < g.targets@.len() ==> output_ok(g, #[trigger] g.targets@[t], g.nodes@.len() as int)
}

/// The point a producer's claim lives at, given a consumer-side point whose
/// last `new_vars` coordinates index the consumer's instances: the leading
/// `new_vars - old_vars` instance coordinates are dropped.
pub open spec fn forwarded_point(p: Seq<u64>, new_vars: int, old_vars: int) -> Seq<u64> {
    let num_vars = p.len() - new_vars;
    p.subrange(0, num_vars) + p.subrange(num_vars + (new_vars - old_vars), p.len() as int)
}

/// The claim slots of every node, in the mathematical model.
pub struct ClaimState {
    /// Claims on each node's output layer.
    pub outputs: Seq<Seq<Claim>>,
    /// The write-once claim slot of each witness output of each node.
    pub wit_outs: Seq<Seq<Option<Claim>>>,
    /// Claims on inputs that no node of the graph produces.
    pub sources: Seq<Claim>,
}

/// The slots have one entry per node and one per witness output.
pub open spec fn shaped(s: ClaimState, g: CircuitGraph) -> bool {
    &&& s.outputs.len() == g.nodes@.len()
    &&& s.wit_outs.len() == g.nodes@.len()
    &&& forall|i: int|
        0 <= i < g.nodes@.len() ==> (#[trigger] s.wit_outs[i]).len() == g.nodes@[i].n_witness_out
}

/// Writes claim `c` on output `o`; a second write into a witness-output
/// slot is refused.
pub open spec fn write_claim(s: ClaimState, o: NodeOutputType, c: Claim) -> Result<
    ClaimState,
    GKRGraphError,
> {
    match o {
        NodeOutputType::OutputLayer(id) => Ok(
            ClaimState {
                outputs: s.outputs.update(id as int, s.outputs[id as int].push(c)),
                wit_outs: s.wit_outs,
                sources: s.sources,
            },
        ),
        NodeOutputType::WireOut(id, w) => if s.wit_outs[id as int][w as int].is_some() {
            Err(GKRGraphError::DuplicateClaim)
        } else {
            Ok(
                ClaimState {
                    outputs: s.outputs,
                    wit_outs: s.wit_outs.update(
                        id as int,
                        s.wit_outs[id as int].update(w as int, Some(c)),
                    ),
                    sources: s.sources,
                },
            )
        },
    }
}

/// Propagates one reduced input claim `c` of a node with `new_vars`
/// instance variables along its predecessor edge `p`.
pub open spec fn scatter(
    s: ClaimState,
    p: PredType,
    c: Claim,
    new_vars: int,
    vars: Seq<usize>,
) -> Result<ClaimState, GKRGraphError> {
    match p {
        PredType::Source => Ok(
            ClaimState { outputs: s.outputs, wit_outs: s.wit_outs, sources: s.sources.push(c) },
        ),
        PredType::PredWire(o) => write_claim(s, o, c),
        PredType::PredWireDup(o) => if c.0.len() < new_vars {
            Err(GKRGraphError::PointTooShort)
        } else {
            write_claim(s, o, (forwarded_point(c.0, new_vars, vars[node_of(o)] as int), c.1))
        },
    }
}

/// Propagates the first `n` reduced input claims of a node, stopping at the
/// first error.
pub open spec fn scatter_all(
    s: ClaimState,
    preds: Seq<PredType>,
    claims: Seq<Claim>,
    new_vars: int,
    vars: Seq<usize>,
    n: nat,
) -> Result<ClaimState, GKRGraphError>
    decreases n,
{
    if n == 0 {
        Ok(s)
    } else {
        match scatter_all(s, preds, claims, new_vars, vars, (n - 1) as nat) {
            Ok(t) => scatter(t, preds[n - 1], claims[n - 1], new_vars, vars),
            Err(e) => Err(e),
        }
    }
}

/// Places the first `n` target evaluations into their slots.
pub open spec fn place_targets(
    s: ClaimState,
    targets: Seq<NodeOutputType>,
    evals: Seq<Claim>,
    n: nat,
) -> Result<ClaimState, GKRGraphError>
    decreases n,
{
    if n == 0 {
        Ok(s)
    } else {
        match place_targets(s, targets, evals, (n - 1) as nat) {
            Ok(t) => write_claim(t, targets[n - 1], evals[n - 1]),
            Err(e) => Err(e),
        }
    }
}

/// The state with no claim anywhere.
pub open spec fn empty_state(g: CircuitGraph) -> ClaimState {
    ClaimState {
        outputs: Seq::new(g.nodes@.len(), |i: int| Seq::empty()),
        wit_outs: Seq::new(
            g.nodes@.len(),
            |i: int| Seq::new(g.nodes@[i].n_witness_out as nat, |j: int| None),
        ),
        sources: Seq::empty(),
    }
}

/// The state after node `id`'s claims were handed to its sub-verifier.
pub open spec fn cleared(s: ClaimState, id: int) -> ClaimState {
    ClaimState {
        outputs: s.outputs.update(id, Seq::empty()),
        wit_outs: s.wit_outs.update(id, Seq::new(s.wit_outs[id].len(), |j: int| None)),
        sources: s.sources,
    }
}

pub open spec fn view_claims(v: Seq<PointAndEval>) -> Seq<Claim> {
    v.map_values(|c: PointAndEval| c@)
}

pub open spec fn view_slots(v: Seq<Option<PointAndEval>>) -> Seq<Option<Claim>> {
    v.map_values(
        |c: Option<PointAndEval>|
            match c {
                Some(x) => Some(x@),
                None => None,
            },
    )
}

/// Processes the first `k` nodes in processing order, from the output-most
/// one backwards: the `j`-th processed node's slots are handed to its
/// sub-verifier and cleared; the verdict `rc[j]` is a rejection (`None`),
/// which stops the run, or the reduced input claims, which are propagated
/// to the node's predecessors.
pub open spec fn run_nodes(
    s: ClaimState,
    g: CircuitGraph,
    vars: Seq<usize>,
    rc: Seq<Option<Seq<Claim>>>,
    k: nat,
) -> Result<ClaimState, GKRGraphError>
    decreases k,
{
    if k == 0 {
        Ok(s)
    } else {
        match run_nodes(s, g, vars, rc, (k - 1) as nat) {
            Ok(t) => {
                let id = g.nodes@.len() - k;
                let preds = g.nodes@[id].preds@;
                match rc[k - 1] {
                    None => Err(GKRGraphError::SubProofRejected),
                    Some(c) => if c.len() != preds.len() {
                        Err(GKRGraphError::ClaimCountMismatch)
                    } else {
                        scatter_all(cleared(t, id), preds, c, vars[id] as int, vars, preds.len())
                    },
                }
            },
            Err(e) => Err(e),
        }
    }
}

/// The node handled `k`-th, and what its sub-proof is checked against: its
/// output-layer claims and witness-output slots after the `k` earlier nodes
/// were processed.
pub open spec fn handed_at(
    s: ClaimState,
    g: CircuitGraph,
    vars: Seq<usize>,
    rc: Seq<Option<Seq<Claim>>>,
    k: nat,
) -> (Seq<Claim>, Seq<Option<Claim>>) {
    let t = run_nodes(s, g, vars, rc, k)->Ok_0;
    let id = g.nodes@.len() - 1 - k;
    (t.outputs[id], t.wit_outs[id])
}

/// The state once the targets are placed.
pub open spec fn initial_state(g: CircuitGraph, tev: Seq<Claim>) -> Result<ClaimState, GKRGraphError> {
    place_targets(empty_state(g), g.targets@, tev, tev.len())
}

/// The whole verification: the targets are placed, then every node is
/// processed in reverse topological order with the reduced claims `rc`.
pub open spec fn verify_spec(
    g: CircuitGraph,
    aux: CircuitGraphAuxInfo,
    tev: Seq<Claim>,
    rc: Seq<Option<Seq<Claim>>>,
) -> Result<ClaimState, GKRGraphError> {
    if !graph_wf(g, aux) {
        Err(GKRGraphError::MalformedGraph)
    } else {
        match initial_state(g, tev) {
            Ok(s) => if rc.len() != g.nodes@.len() {
                Err(GKRGraphError::ProofCountMismatch)
            } else {
                run_nodes(s, g, aux.instance_num_vars@, rc, g.nodes@.len())
            },
            Err(e) => Err(e),
        }
    }
}

/// The claim slots of a graph verification in progress.
pub struct IOPVerifierState {
    output_evals: Vec<Vec<PointAndEval>>,
    wit_out_evals: Vec<Vec<Option<PointAndEval>>>,
    source_evals: Vec<PointAndEval>,
}

impl View for IOPVerifierState {
    type V = ClaimState;

    closed spec fn view(&self) -> ClaimState {
        ClaimState {
            outputs: self.output_evals@.map_values(|v: Vec<PointAndEval>| view_claims(v@)),
            wit_outs: self.wit_out_evals@.map_values(
                |v: Vec<Option<PointAndEval>>| view_slots(v@),
            ),
            sources: view_claims(self.source_evals@),
        }
    }
}

/// Rebuilds a consumer-side point in the coordinate space of a producer
/// with `old_vars` instance variables, where the consumer has `new_vars`.
pub fn forward_point(point: &Vec<u64>, new_vars: usize, old_vars: usize) -> (r: Vec<u64>)
    requires
        old_vars <= new_vars <= point@.len(),
    ensures
        r@ == forwarded_point(point@, new_vars as int, old_vars as int),
{
    let num_vars = point.len() - new_vars;
    let skip = num_vars + (new_vars - old_vars);
    let mut r: Vec<u64> = Vec::new();
    let mut i: usize = 0;
    while i < num_vars
        invariant
            num_vars == point@.len() - new_vars,
            i <= num_vars,
            r@ == point@.subrange(0, i as int),
        decreases num_vars - i,
    {
        r.push(point[i]);
        i += 1;
    }
    let mut j: usize = skip;
    while j < point.len()
        invariant
            num_vars == point@.len() - new_vars,
            skip == num_vars + (new_vars - old_vars),
            skip <= j <= point@.len(),
            r@ == point@.subrange(0, num_vars as int) + point@.subrange(skip as int, j as int),
        decreases point@.len() - j,
    {
        r.push(point[j]);
        j += 1;
        assert(point@.subrange(skip as int, j as int) =~= point@.subrange(
            skip as int,
            j - 1,
        ).push(point@[j - 1]));
    }
    assert(r@ =~= forwarded_point(point@, new_vars as int, old_vars as int));
    r
}

/// Decides whether the graph and its instance counts are well formed.
pub fn check_graph(g: &CircuitGraph, aux: &CircuitGraphAuxInfo) -> (r: bool)
    ensures
        r == graph_wf(*g, *aux),
{
    let n = g.nodes.len();
    if aux.instance_num_vars.len() != n {
        return false;
    }
    let mut i: usize = 0;
    while i < n
        invariant
            n == g.nodes@.len(),
            aux.instance_num_vars@.len() == n,
            i <= n,
            forall|a: int| 0 <= a < i ==> #[trigger] g.nodes@[a].id == a,
            forall|a: int, k: int|
                0 <= a < i && 0 <= k < g.nodes@[a].preds@.len() ==> pred_ok(
                    *g,
                    aux.instance_num_vars@,
                    a,
                    #[trigger] g.nodes@[a].preds@[k],
                ),
        decreases n - i,
    {
        let node = &g.nodes[i];
        if node.id != i {
            return false;
        }
        let mut k: usize = 0;
        while k < node.preds.len()
            invariant
                n == g.nodes@.len(),
                aux.instance_num_vars@.len() == n,
                i < n,
                *node == g.nodes@[i as int],
                k <= node.preds@.len(),
                forall|b: int|
                    0 <= b < k ==> pred_ok(
                        *g,
                        aux.instance_num_vars@,
                        i as int,
                        #[trigger] node.preds@[b],
                    ),
            decreases node.preds@.len() - k,
        {
            let ok = match node.preds[k] {
                PredType::Source => true,
                PredType::PredWire(o) => output_in(g, o, i),
                PredType::PredWireDup(o) => output_in(g, o, i) && aux.instance_num_vars[
                    output_node(o)] <= aux.instance_num_vars[i],
            };
            if !ok {
                return false;
            }
            k += 1;
        }
        i += 1;
    }
    let mut t: usize = 0;
    while t < g.targets.len()
        invariant
            n == g.nodes@.len(),
            t <= g.targets@.len(),
            forall|b: int| 0 <= b < t ==> output_ok(*g, #[trigger] g.targets@[b], n as int),
        decreases g.targets@.len() - t,
    {
        if !output_in(g, g.targets[t], n) {
            return false;
        }
        t += 1;
    }
    true
}

fn output_node(o: NodeOutputType) -> (r: usize)
    ensures
        r == node_of(o),
{
    match o {
        NodeOutputType::OutputLayer(id) => id,
        NodeOutputType::WireOut(id, _) => id,
    }
}

fn output_in(g: &CircuitGraph, o: NodeOutputType, bound: usize) -> (r: bool)
    requires
        bound <= g.nodes@.len(),
    ensures
        r == output_ok(*g, o, bound as int),
{
    match o {
        NodeOutputType::OutputLayer(id) => id < bound,
        NodeOutputType::WireOut(id, w) => id < bound && w < g.nodes[id].n_witness_out,
    }
}

impl IOPVerifierState {
    /// The state with every slot empty.
    pub fn empty(g: &CircuitGraph) -> (r: Self)
        ensures
            r@ == empty_state(*g),
            shaped(r@, *g),
    {
        let n = g.nodes.len();
        let mut output_evals: Vec<Vec<PointAndEval>> = Vec::new();
        let mut wit_out_evals: Vec<Vec<Option<PointAndEval>>> = Vec::new();
        let mut i: usize = 0;
        while i < n
            invariant
                n == g.nodes@.len(),
                i <= n,
                output_evals@.len() == i,
                wit_out_evals@.len() == i,
                forall|a: int|
                    0 <= a < i ==> view_claims((#[trigger] output_evals@[a])@)
                        == Seq::<Claim>::empty(),
                forall|a: int|
                    0 <= a < i ==> view_slots((#[trigger] wit_out_evals@[a])@) == Seq::new(
                        g.nodes@[a].n_witness_out as nat,
                        |j: int| None::<Claim>,
                    ),
            decreases n - i,
        {
            let w = g.nodes[i].n_witness_out;
            let mut slots: Vec<Option<PointAndEval>> = Vec::new();
            let mut j: usize = 0;
            while j < w
                invariant
                    j <= w,
                    slots@.len() == j,
                    forall|b: int| 0 <= b < j ==> (#[trigger] slots@[b]).is_none(),
                decreases w - j,
            {
                slots.push(None);
                j += 1;
            }
            assert(view_slots(slots@) =~= Seq::new(w as nat, |j: int| None::<Claim>));
            let fresh: Vec<PointAndEval> = Vec::new();
            assert(view_claims(fresh@) =~= Seq::<Claim>::empty());
            output_evals.push(fresh);
            wit_out_evals.push(slots);
            i += 1;
        }
        let r = IOPVerifierState { output_evals, wit_out_evals, source_evals: Vec::new() };
        assert(r@.outputs =~= empty_state(*g).outputs);
        assert(r@.wit_outs =~= empty_state(*g).wit_outs);
        assert(r@.sources =~= empty_state(*g).sources);
        r
    }

    /// Writes claim `c` on output `o`. Writing into a witness-output slot
    /// that already holds a claim fails and changes nothing.
    pub fn put_claim(&mut self, g: &CircuitGraph, o: NodeOutputType, c: PointAndEval) -> (r:
        Result<(), GKRGraphError>)
        requires
            shaped(old(self)@, *g),
            output_ok(*g, o, g.nodes@.len() as int),
        ensures
            match write_claim(old(self)@, o, c@) {
                Ok(t) => r is Ok && final(self)@ == t,
                Err(e) => r == Err::<(), GKRGraphError>(e) && final(self)@ == old(self)@,
            },
            shaped(final(self)@, *g),
    {
        let ghost c_view = c@;
        match o {
            NodeOutputType::OutputLayer(id) => {
                let ghost prev = self.output_evals@[id as int]@;
                self.output_evals[id].push(c);
                assert(view_claims(self.output_evals@[id as int]@) =~= view_claims(prev).push(
                    c_view,
                ));
                assert(self@.outputs =~= write_claim(old(self)@, o, c_view)->Ok_0.outputs);
                Ok(())
            },
            NodeOutputType::WireOut(id, w) => {
                assert(view_slots(self.wit_out_evals@[id as int]@)[w as int]
                    == self@.wit_outs[id as int][w as int]);
                if self.wit_out_evals[id][w].is_some() {
                    Err(GKRGraphError::DuplicateClaim)
                } else {
                    let ghost prev = self.wit_out_evals@[id as int]@;
                    self.wit_out_evals[id].set(w, Some(c));
                    assert(view_slots(self.wit_out_evals@[id as int]@) =~= view_slots(
                        prev,
                    ).update(w as int, Some(c_view)));
                    assert(self@.wit_outs =~= write_claim(old(self)@, o, c_view)->Ok_0.wit_outs);
                    Ok(())
                }
            },
        }
    }

    /// Propagates one reduced input claim of node `node_id` along its
    /// predecessor edge `p`.
    pub fn scatter_claim(
        &mut self,
        g: &CircuitGraph,
        aux: &CircuitGraphAuxInfo,
        node_id: usize,
        p: PredType,
        c: PointAndEval,
    ) -> (r: Result<(), GKRGraphError>)
        requires
            shaped(old(self)@, *g),
            graph_wf(*g, *aux),
            node_id < g.nodes@.len(),
            pred_ok(*g, aux.instance_num_vars@, node_id as int, p),
        ensures
            match scatter(
                old(self)@,
                p,
                c@,
                aux.instance_num_vars@[node_id as int] as int,
                aux.instance_num_vars@,
            ) {
                Ok(t) => r is Ok && final(self)@ == t,
                Err(e) => r == Err::<(), GKRGraphError>(e) && final(self)@ == old(self)@,
            },
            shaped(final(self)@, *g),
    {
        let new_vars = aux.instance_num_vars[node_id];
        match p {
            PredType::Source => {
                let ghost prev = self.source_evals@;
                let ghost cv = c@;
                self.source_evals.push(c);
                assert(view_claims(self.source_evals@) =~= view_claims(prev).push(cv));
                Ok(())
            },
            PredType::PredWire(o) => self.put_claim(g, o, c),
            PredType::PredWireDup(o) => {
                if c.point.len() < new_vars {
                    return Err(GKRGraphError::PointTooShort);
                }
                let old_vars = aux.instance_num_vars[output_node(o)];
                let point = forward_point(&c.point, new_vars, old_vars);
                self.put_claim(g, o, PointAndEval::new(point, c.eval))
            },
        }
    }

    /// Hands out node `id`'s accumulated output-layer claims and
    /// witness-output slots, leaving them empty.
    pub fn take_node_claims(&mut self, id: usize) -> (r: (
        Vec<PointAndEval>,
        Vec<Option<PointAndEval>>,
    ))
        requires
            id < old(self)@.outputs.len(),
            id < old(self)@.wit_outs.len(),
        ensures
            view_claims(r.0@) == old(self)@.outputs[id as int],
            view_slots(r.1@) == old(self)@.wit_outs[id as int],
            final(self)@ == cleared(old(self)@, id as int),
    {
        let mut outs: Vec<PointAndEval> = Vec::new();
        std::mem::swap(&mut self.output_evals[id], &mut outs);
        let w = self.wit_out_evals[id].len();
        let mut fresh: Vec<Option<PointAndEval>> = Vec::new();
        let mut j: usize = 0;
        while j < w
            invariant
                j <= w,
                fresh@.len() == j,
                forall|b: int| 0 <= b < j ==> (#[trigger] fresh@[b]).is_none(),
            decreases w - j,
        {
            fresh.push(None);
            j += 1;
        }
        std::mem::swap(&mut self.wit_out_evals[id], &mut fresh);
        proof {
            let c = cleared(old(self)@, id as int);
            assert(view_claims(self.output_evals@[id as int]@) =~= Seq::<Claim>::empty());
            assert(view_slots(self.wit_out_evals@[id as int]@) =~= c.wit_outs[id as int]);
            assert(self@.outputs =~= c.outputs);
            assert(self@.wit_outs =~= c.wit_outs);
        }
        (outs, fresh)
    }

    /// Propagates the reduced input claims that node `node_id`'s
    /// sub-verifier returned, one per predecessor edge, in order.
    pub fn absorb_input_claims(
        &mut self,
        g: &CircuitGraph,
        aux: &CircuitGraphAuxInfo,
        node_id: usize,
        claims: &Vec<PointAndEval>,
    ) -> (r: Result<(), GKRGraphError>)
        requires
            shaped(old(self)@, *g),
            graph_wf(*g, *aux),
            node_id < g.nodes@.len(),
        ensures
            shaped(final(self)@, *g),
            claims@.len() != g.nodes@[node_id as int].preds@.len() ==> r == Err::<
                (),
                GKRGraphError,
            >(GKRGraphError::ClaimCountMismatch) && final(self)@ == old(self)@,
            claims@.len() == g.nodes@[node_id as int].preds@.len() ==> match scatter_all(
                old(self)@,
                g.nodes@[node_id as int].preds@,
                view_claims(claims@),
                aux.instance_num_vars@[node_id as int] as int,
                aux.instance_num_vars@,
                claims@.len(),
            ) {
                Ok(t) => r is Ok && final(self)@ == t,
                Err(e) => r == Err::<(), GKRGraphError>(e),
            },
    {
        let preds = &g.nodes[node_id].preds;
        if claims.len() != preds.len() {
            return Err(GKRGraphError::ClaimCountMismatch);
        }
        let ghost vars = aux.instance_num_vars@;
        let ghost nv = vars[node_id as int] as int;
        let ghost cv = view_claims(claims@);
        let mut k: usize = 0;
        while k < claims.len()
            invariant
                shaped(self@, *g),
                graph_wf(*g, *aux),
                node_id < g.nodes@.len(),
                *preds == g.nodes@[node_id as int].preds,
                claims@.len() == preds@.len(),
                vars == aux.instance_num_vars@,
                nv == vars[node_id as int] as int,
                cv == view_claims(claims@),
                k <= claims@.len(),
                scatter_all(old(self)@, preds@, cv, nv, vars, k as nat) == Ok::<
                    ClaimState,
                    GKRGraphError,
                >(self@),
            decreases claims@.len() - k,
        {
            let p = preds[k];
            assert(pred_ok(*g, vars, node_id as int, g.nodes@[node_id as int].preds@[k as int]));
            let res = self.scatter_claim(g, aux, node_id, p, claims[k].duplicate());
            if res.is_err() {
                proof {
                    lemma_scatter_all_err(
                        old(self)@,
                        preds@,
                        cv,
                        nv,
                        vars,
                        (k + 1) as nat,
                        claims@.len(),
                    );
                }
                return res;
            }
            k += 1;
        }
        Ok(())
    }

    /// Claims gathered on inputs that no node of the graph produces, for a
    /// later commitment opening.
    pub fn source_claims(&self) -> (r: &Vec<PointAndEval>)
        ensures
            view_claims(r@) == self@.sources,
    {
        &self.source_evals
    }

    /// Builds the initial state: every target evaluation placed into the
    /// slot of the output it names.
    pub fn start(g: &CircuitGraph, aux: &CircuitGraphAuxInfo, target_evals: &TargetEvaluations) -> (r:
        Result<Self, GKRGraphError>)
        requires
            g.targets@.len() == target_evals.0@.len(),
        ensures
            !graph_wf(*g, *aux) ==> r == Err::<Self, GKRGraphError>(GKRGraphError::MalformedGraph),
            graph_wf(*g, *aux) ==> match place_targets(
                empty_state(*g),
                g.targets@,
                view_claims(target_evals.0@),
                g.targets@.len(),
            ) {
                Ok(t) => r is Ok && r->Ok_0@ == t && shaped(t, *g),
                Err(e) => r == Err::<Self, GKRGraphError>(e),
            },
    {
        if !check_graph(g, aux) {
            return Err(GKRGraphError::MalformedGraph);
        }
        let mut st = IOPVerifierState::empty(g);
        let ghost tv = view_claims(target_evals.0@);
        let mut t: usize = 0;
        while t < g.targets.len()
            invariant
                graph_wf(*g, *aux),
                g.targets@.len() == target_evals.0@.len(),
                tv == view_claims(target_evals.0@),
                t <= g.targets@.len(),
                shaped(st@, *g),
                place_targets(empty_state(*g), g.targets@, tv, t as nat) == Ok::<
                    ClaimState,
                    GKRGraphError,
                >(st@),
            decreases g.targets@.len() - t,
        {
            let o = g.targets[t];
            let res = st.put_claim(g, o, target_evals.0[t].duplicate());
            if let Err(e) = res {
                proof {
                    lemma_place_targets_err(
                        empty_state(*g),
                        g.targets@,
                        tv,
                        (t + 1) as nat,
                        g.targets@.len(),
                    );
                }
                return Err(e);
            }
            t += 1;
        }
        Ok(st)
    }
}

proof fn lemma_scatter_all_err(
    s: ClaimState,
    preds: Seq<PredType>,
    claims: Seq<Claim>,
    nv: int,
    vars: Seq<usize>,
    m: nat,
    n: nat,
)
    requires
        m <= n,
        scatter_all(s, preds, claims, nv, vars, m) is Err,
    ensures
        scatter_all(s, preds, claims, nv, vars, n) == scatter_all(s, preds, claims, nv, vars, m),
    decreases n - m,
{
    if m < n {
        lemma_scatter_all_err(s, preds, claims, nv, vars, m, (n - 1) as nat);
    }
}

proof fn lemma_place_targets_err(
    s: ClaimState,
    targets: Seq<NodeOutputType>,
    evals: Seq<Claim>,
    m: nat,
    n: nat,
)
    requires
        m <= n,
        place_targets(s, targets, evals, m) is Err,
    ensures
        place_targets(s, targets, evals, n) == place_targets(s, targets, evals, m),
    decreases n - m,
{
    if m < n {
        lemma_place_targets_err(s, targets, evals, m, (n - 1) as nat);
    }
}

proof fn lemma_run_nodes_err(
    s: ClaimState,
    g: CircuitGraph,
    vars: Seq<usize>,
    rc: Seq<Option<Seq<Claim>>>,
    m: nat,
    n: nat,
)
    requires
        m <= n,
        run_nodes(s, g, vars, rc, m) is Err,
    ensures
        run_nodes(s, g, vars, rc, n) == run_nodes(s, g, vars, rc, m),
    decreases n - m,
{
    if m < n {
        lemma_run_nodes_err(s, g, vars, rc, m, (n - 1) as nat);
    }
}

proof fn lemma_cleared_shaped(s: ClaimState, g: CircuitGraph, id: int)
    requires
        shaped(s, g),
        0 <= id < g.nodes@.len(),
    ensures
        shaped(cleared(s, id), g),
{
    let c = cleared(s, id);
    assert forall|i: int| 0 <= i < g.nodes@.len() implies (#[trigger] c.wit_outs[i]).len()
        == g.nodes@[i].n_witness_out by {
        if i == id {
        }
    }
}

/// What one node's sub-proof is checked against: its output-layer claims
/// and its witness-output slots.
#[derive(Debug)]
pub struct NodeClaims {
    pub output: Vec<PointAndEval>,
    pub wit_out: Vec<Option<PointAndEval>>,
}

/// The result of a graph verification: for each node in processing order,
/// the claims its sub-proof was checked against, and the claims left on
/// source inputs for a later commitment opening.
#[derive(Debug)]
pub struct GraphVerification {
    pub handed: Vec<NodeClaims>,
    pub sources: Vec<PointAndEval>,
}

pub open spec fn view_verdicts(v: Seq<Option<Vec<PointAndEval>>>) -> Seq<Option<Seq<Claim>>> {
    v.map_values(
        |o: Option<Vec<PointAndEval>>|
            match o {
                Some(c) => Some(view_claims(c@)),
                None => None,
            },
    )
}

proof fn lemma_ok_means_all_accepted(
    s: ClaimState,
    g: CircuitGraph,
    vars: Seq<usize>,
    rc: Seq<Option<Seq<Claim>>>,
    n: nat,
)
    requires
        run_nodes(s, g, vars, rc, n) is Ok,
    ensures
        forall|j: int| 0 <= j < n ==> (#[trigger] rc[j]) is Some,
        forall|j: nat| j <= n ==> (#[trigger] run_nodes(s, g, vars, rc, j)) is Ok,
{
    assert forall|j: nat| j <= n implies (#[trigger] run_nodes(s, g, vars, rc, j)) is Ok by {
        if run_nodes(s, g, vars, rc, j) is Err {
            lemma_run_nodes_err(s, g, vars, rc, j, n);
        }
    }
    assert forall|j: int| 0 <= j < n implies (#[trigger] rc[j]) is Some by {
        assert(run_nodes(s, g, vars, rc, (j + 1) as nat) is Ok);
    }
}

impl IOPVerifierState {
    /// Runs the claim propagation of a proof graph against the verdicts of
    /// the nodes' single-circuit sub-verifiers, given in processing order
    /// (outputs before inputs): `None` where the sub-proof was rejected,
    /// else its reduced input claims, one per predecessor edge. Stops at
    /// the first rejection. On success returns, per node in processing
    /// order, the claims its sub-proof is checked against, and the claims
    /// left on source inputs.
    ///
    /// Each verdict must come from running the sub-verifier on the claims
    /// returned for that node in `handed`, which depend on the earlier
    /// verdicts only; the caller checks that, or drives the sub-verifier
    /// node by node through `start`, `take_node_claims` and
    /// `absorb_input_claims`, which this function runs.
    pub fn verify(
        circuit: &CircuitGraph,
        target_evals: &TargetEvaluations,
        node_verdicts: &Vec<Option<Vec<PointAndEval>>>,
        aux_info: &CircuitGraphAuxInfo,
    ) -> (r: Result<GraphVerification, GKRGraphError>)
        requires
            circuit.targets@.len() == target_evals.0@.len(),
        ensures
            node_verdicts@.len() != circuit.nodes@.len() && graph_wf(*circuit, *aux_info)
                && initial_state(*circuit, view_claims(target_evals.0@)) is Ok ==> r == Err::<
                GraphVerification,
                GKRGraphError,
            >(GKRGraphError::ProofCountMismatch),
            match verify_spec(
                *circuit,
                *aux_info,
                view_claims(target_evals.0@),
                view_verdicts(node_verdicts@),
            ) {
                Ok(t) => r is Ok && view_claims(r->Ok_0.sources@) == t.sources
                    && r->Ok_0.handed@.len() == circuit.nodes@.len() && (forall|k: int|
                    0 <= k < circuit.nodes@.len() ==> (#[trigger] node_verdicts@[k]) is Some) && (
                forall|k: int|
                    0 <= k < circuit.nodes@.len() ==> ({
                        let h = handed_at(
                            initial_state(*circuit, view_claims(target_evals.0@))->Ok_0,
                            *circuit,
                            aux_info.instance_num_vars@,
                            view_verdicts(node_verdicts@),
                            k as nat,
                        );
                        &&& view_claims((#[trigger] r->Ok_0.handed@[k]).output@) == h.0
                        &&& view_slots(r->Ok_0.handed@[k].wit_out@) == h.1
                    })),
                Err(e) => r == Err::<GraphVerification, GKRGraphError>(e),
            },
    {
        let ghost rc = view_verdicts(node_verdicts@);
        let mut st = match IOPVerifierState::start(circuit, aux_info, target_evals) {
            Ok(st) => st,
            Err(e) => return Err(e),
        };
        let n = circuit.nodes.len();
        if node_verdicts.len() != n {
            return Err(GKRGraphError::ProofCountMismatch);
        }
        let ghost s0 = st@;
        let ghost vars = aux_info.instance_num_vars@;
        assert(initial_state(*circuit, view_claims(target_evals.0@)) == Ok::<
            ClaimState,
            GKRGraphError,
        >(s0));
        let mut handed: Vec<NodeClaims> = Vec::new();
        let mut k: usize = 0;
        while k < n
            invariant
                graph_wf(*circuit, *aux_info),
                n == circuit.nodes@.len(),
                node_verdicts@.len() == n,
                rc == view_verdicts(node_verdicts@),
                vars == aux_info.instance_num_vars@,
                circuit.targets@.len() == target_evals.0@.len(),
                initial_state(*circuit, view_claims(target_evals.0@)) == Ok::<
                    ClaimState,
                    GKRGraphError,
                >(s0),
                k <= n,
                shaped(st@, *circuit),
                run_nodes(s0, *circuit, vars, rc, k as nat) == Ok::<ClaimState, GKRGraphError>(st@),
                handed@.len() == k,
                forall|j: int|
                    0 <= j < k ==> ({
                        let h = handed_at(s0, *circuit, vars, rc, j as nat);
                        &&& view_claims((#[trigger] handed@[j]).output@) == h.0
                        &&& view_slots(handed@[j].wit_out@) == h.1
                    }),
            decreases n - k,
        {
            let id = n - 1 - k;
            let ghost pre = st@;
            // The node's claims go to its sub-verifier; its slots are cleared.
            let (output, wit_out) = st.take_node_claims(id);
            handed.push(NodeClaims { output, wit_out });
            proof {
                lemma_cleared_shaped(pre, *circuit, id as int);
            }
            match &node_verdicts[k] {
                None => {
                    proof {
                        lemma_run_nodes_err(s0, *circuit, vars, rc, (k + 1) as nat, n as nat);
                    }
                    return Err(GKRGraphError::SubProofRejected);
                },
                Some(claims) => {
                    assert(rc[k as int] == Some(view_claims(claims@)));
                    let res = st.absorb_input_claims(circuit, aux_info, id, claims);
                    if let Err(e) = res {
                        proof {
                            lemma_run_nodes_err(s0, *circuit, vars, rc, (k + 1) as nat, n as nat);
                        }
                        return Err(e);
                    }
                },
            }
            k += 1;
        }
        proof {
            lemma_ok_means_all_accepted(s0, *circuit, vars, rc, n as nat);
            assert forall|j: int| 0 <= j < n implies (#[trigger] node_verdicts@[j]) is Some by {
                assert(rc[j] is Some);
            }
        }
        Ok(GraphVerification { handed, sources: st.source_evals })
    }
}

/// A claim forwarded over a duplicated wire keeps its per-instance prefix,
/// loses exactly the `new_vars - old_vars` leading instance coordinates,
/// and keeps the remaining instance coordinates in order.
pub proof fn lemma_duplicated_wire_transform(p: Seq<u64>, new_vars: int, old_vars: int)
    requires
        0 <= old_vars <= new_vars <= p.len(),
    ensures
        forwarded_point(p, new_vars, old_vars).len() == p.len() - (new_vars - old_vars),
        forall|i: int|
            0 <= i < p.len() - new_vars ==> #[trigger] forwarded_point(p, new_vars, old_vars)[i]
                == p[i],
        forall|i: int|
            p.len() - new_vars <= i < p.len() - (new_vars - old_vars) ==> #[trigger] forwarded_point(
                p,
                new_vars,
                old_vars,
            )[i] == p[i + (new_vars - old_vars)],
{
}

/// When a node's single input is wired to another node's output layer with
/// the same instance count, its reduced claim lands in that output's slot
/// with the point unchanged, and nothing else changes.
pub proof fn lemma_wire_forwards_verbatim(
    s: ClaimState,
    a: usize,
    c: Claim,
    new_vars: int,
    vars: Seq<usize>,
)
    requires
        a < s.outputs.len(),
    ensures
        scatter_all(
            s,
            seq![PredType::PredWire(NodeOutputType::OutputLayer(a))],
            seq![c],
            new_vars,
            vars,
            1,
        ) == Ok::<ClaimState, GKRGraphError>(
            ClaimState {
                outputs: s.outputs.update(a as int, s.outputs[a as int].push(c)),
                wit_outs: s.wit_outs,
                sources: s.sources,
            },
        ),
{
    reveal_with_fuel(scatter_all, 2);
}

/// A witness-output slot takes one claim: once written, a second write is
/// refused with `DuplicateClaim` instead of overwriting the first.
pub proof fn lemma_double_claim_rejected(s: ClaimState, id: usize, w: usize, c1: Claim, c2: Claim)
    requires
        id < s.wit_outs.len(),
        w < s.wit_outs[id as int].len(),
        s.wit_outs[id as int][w as int] is None,
    ensures
        write_claim(s, NodeOutputType::WireOut(id, w), c1) is Ok,
        write_claim(s, NodeOutputType::WireOut(id, w), c1)->Ok_0.wit_outs[id as int][w as int]
            == Some(c1),
        write_claim(
            write_claim(s, NodeOutputType::WireOut(id, w), c1)->Ok_0,
            NodeOutputType::WireOut(id, w),
            c2,
        ) == Err::<ClaimState, GKRGraphError>(GKRGraphError::DuplicateClaim),
{
}

/// In a two-node graph whose consumer B (node 1) reads producer A's
/// (node 0) output layer over a plain wire: B is checked first, against the
/// claims on its own output; B's reduced claim `c` then reaches A's output
/// slot unchanged, and it is exactly what A's sub-proof is checked against.
pub proof fn lemma_two_node_wire_propagation(
    s0: ClaimState,
    g: CircuitGraph,
    vars: Seq<usize>,
    c: Claim,
    rest: Option<Seq<Claim>>,
)
    requires
        g.nodes@.len() == 2,
        g.nodes@[1].preds@ == seq![PredType::PredWire(NodeOutputType::OutputLayer(0))],
        s0.outputs.len() == 2,
        s0.outputs[0] == Seq::<Claim>::empty(),
    ensures
        handed_at(s0, g, vars, seq![Some(seq![c]), rest], 0).0 == s0.outputs[1],
        run_nodes(s0, g, vars, seq![Some(seq![c]), rest], 1) is Ok,
        handed_at(s0, g, vars, seq![Some(seq![c]), rest], 1).0 == seq![c],
{
    let rc = seq![Some(seq![c]), rest];
    reveal_with_fuel(run_nodes, 2);
    reveal_with_fuel(scatter_all, 2);
    let t = cleared(s0, 1);
    assert(t.outputs[0] == Seq::<Claim>::empty());
    assert(rc[0] == Some(seq![c]));
    assert(run_nodes(s0, g, vars, rc, 1) == scatter_all(
        t,
        g.nodes@[1].preds@,
        seq![c],
        vars[1] as int,
        vars,
        1,
    ));
    assert(Seq::<Claim>::empty().push(c) =~= seq![c]);
}

/// In a two-node graph whose consumer B (node 1, five instance variables)
/// reads producer A's (node 0, two instance variables) output layer over a
/// duplicated wire, A is checked against B's reduced claim with its point
/// three coordinates shorter: the per-instance prefix, then the last two
/// instance coordinates.
pub proof fn lemma_two_node_duplicated_wire_propagation(
    s0: ClaimState,
    g: CircuitGraph,
    vars: Seq<usize>,
    c: Claim,
    rest: Option<Seq<Claim>>,
)
    requires
        g.nodes@.len() == 2,
        g.nodes@[1].preds@ == seq![PredType::PredWireDup(NodeOutputType::OutputLayer(0))],
        vars.len() == 2,
        vars[0] == 2,
        vars[1] == 5,
        c.0.len() >= 5,
        s0.outputs.len() == 2,
        s0.outputs[0] == Seq::<Claim>::empty(),
    ensures
        run_nodes(s0, g, vars, seq![Some(seq![c]), rest], 1) is Ok,
        handed_at(s0, g, vars, seq![Some(seq![c]), rest], 1).0 == seq![
            (forwarded_point(c.0, 5, 2), c.1),
        ],
        forwarded_point(c.0, 5, 2).len() == c.0.len() - 3,
        forwarded_point(c.0, 5, 2) == c.0.subrange(0, c.0.len() - 5) + c.0.subrange(
            c.0.len() - 2,
            c.0.len() as int,
        ),
{
    let rc = seq![Some(seq![c]), rest];
    reveal_with_fuel(run_nodes, 2);
    reveal_with_fuel(scatter_all, 2);
    let t = cleared(s0, 1);
    assert(t.outputs[0] == Seq::<Claim>::empty());
    assert(rc[0] == Some(seq![c]));
    assert(run_nodes(s0, g, vars, rc, 1) == scatter_all(
        t,
        g.nodes@[1].preds@,
        seq![c],
        vars[1] as int,
        vars,
        1,
    ));
    let f = (forwarded_point(c.0, 5, 2), c.1);
    assert(Seq::<Claim>::empty().push(f) =~= seq![f]);
    lemma_duplicated_wire_transform(c.0, 5, 2);
}

} // verus!
