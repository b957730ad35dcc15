use ceno_zkvm::graph::{
    check_graph, forward_point, CircuitGraph, CircuitGraphAuxInfo, CircuitNode, GKRGraphError,
    IOPVerifierState, NodeOutputType, PointAndEval, PredType, TargetEvaluations,
};

fn node(id: usize, n_witness_out: usize, preds: Vec<PredType>) -> CircuitNode {
    CircuitNode { id, n_witness_out, preds }
}

fn claim(point: Vec<u64>, eval: u64) -> PointAndEval {
    PointAndEval::new(point, eval)
}

fn two_nodes(pred: PredType, wit_out_a: usize) -> CircuitGraph {
    CircuitGraph {
        nodes: vec![
            node(0, wit_out_a, vec![PredType::Source]),
            node(1, 0, vec![pred]),
        ],
        targets: vec![NodeOutputType::OutputLayer(1)],
    }
}

#[test]
fn wire_claim_is_forwarded_verbatim() {
    let g = two_nodes(PredType::PredWire(NodeOutputType::OutputLayer(0)), 0);
    let aux = CircuitGraphAuxInfo { instance_num_vars: vec![3, 3] };
    let targets = TargetEvaluations(vec![claim(vec![1, 2, 3, 4], 10)]);
    let mut st = IOPVerifierState::start(&g, &aux, &targets).unwrap();
    let (outs, slots) = st.take_node_claims(1);
    assert_eq!(outs.len(), 1);
    assert_eq!(outs[0].point, vec![1, 2, 3, 4]);
    assert_eq!(outs[0].eval, 10);
    assert!(slots.is_empty());
    let reduced = vec![claim(vec![7, 8, 9], 42)];
    assert_eq!(st.absorb_input_claims(&g, &aux, 1, &reduced), Ok(()));
    let (outs, _) = st.take_node_claims(0);
    assert_eq!(outs.len(), 1);
    assert_eq!(outs[0].point, vec![7, 8, 9]);
    assert_eq!(outs[0].eval, 42);
}

#[test]
fn duplicated_wire_drops_leading_instance_coordinates() {
    let g = two_nodes(PredType::PredWireDup(NodeOutputType::OutputLayer(0)), 0);
    let aux = CircuitGraphAuxInfo { instance_num_vars: vec![2, 5] };
    let targets = TargetEvaluations(vec![claim(vec![0; 8], 1)]);
    let mut st = IOPVerifierState::start(&g, &aux, &targets).unwrap();
    st.take_node_claims(1);
    let reduced = vec![claim(vec![10, 11, 12, 13, 14, 15, 16, 17], 5)];
    assert_eq!(st.absorb_input_claims(&g, &aux, 1, &reduced), Ok(()));
    let (outs, _) = st.take_node_claims(0);
    assert_eq!(outs.len(), 1);
    assert_eq!(outs[0].point.len(), 8 - 3);
    assert_eq!(outs[0].point, vec![10, 11, 12, 16, 17]);
    assert_eq!(outs[0].eval, 5);
}

#[test]
fn forward_point_exact_values() {
    assert_eq!(forward_point(&vec![1, 2, 3, 4, 5, 6, 7], 5, 2), vec![1, 2, 6, 7]);
    assert_eq!(forward_point(&vec![1, 2, 3], 2, 2), vec![1, 2, 3]);
    assert_eq!(forward_point(&vec![1, 2, 3], 3, 0), Vec::<u64>::new());
}

#[test]
fn second_claim_into_witness_output_is_rejected() {
    let g = CircuitGraph {
        nodes: vec![
            node(0, 1, vec![]),
            node(
                1,
                0,
                vec![
                    PredType::PredWire(NodeOutputType::WireOut(0, 0)),
                    PredType::PredWire(NodeOutputType::WireOut(0, 0)),
                ],
            ),
        ],
        targets: vec![NodeOutputType::OutputLayer(1)],
    };
    let aux = CircuitGraphAuxInfo { instance_num_vars: vec![1, 1] };
    let targets = TargetEvaluations(vec![claim(vec![1], 1)]);
    let mut st = IOPVerifierState::start(&g, &aux, &targets).unwrap();
    st.take_node_claims(1);
    let reduced = vec![claim(vec![3], 4), claim(vec![5], 6)];
    assert_eq!(
        st.absorb_input_claims(&g, &aux, 1, &reduced),
        Err(GKRGraphError::DuplicateClaim)
    );
    let (_, slots) = st.take_node_claims(0);
    let first = slots[0].as_ref().unwrap();
    assert_eq!(first.point, vec![3]);
    assert_eq!(first.eval, 4);
}

#[test]
fn duplicate_target_on_witness_output_is_rejected() {
    let g = CircuitGraph {
        nodes: vec![node(0, 1, vec![])],
        targets: vec![NodeOutputType::WireOut(0, 0), NodeOutputType::WireOut(0, 0)],
    };
    let aux = CircuitGraphAuxInfo { instance_num_vars: vec![0] };
    let targets = TargetEvaluations(vec![claim(vec![1], 1), claim(vec![2], 2)]);
    assert!(matches!(
        IOPVerifierState::start(&g, &aux, &targets),
        Err(GKRGraphError::DuplicateClaim)
    ));
}

#[test]
fn malformed_graphs_are_refused() {
    let aux = CircuitGraphAuxInfo { instance_num_vars: vec![1, 1] };
    // An edge to a later node.
    let g = CircuitGraph {
        nodes: vec![
            node(0, 0, vec![PredType::PredWire(NodeOutputType::OutputLayer(1))]),
            node(1, 0, vec![]),
        ],
        targets: vec![],
    };
    assert!(!check_graph(&g, &aux));
    assert!(matches!(
        IOPVerifierState::start(&g, &aux, &TargetEvaluations(vec![])),
        Err(GKRGraphError::MalformedGraph)
    ));
    // A duplicated wire from more instances to fewer.
    let g = two_nodes(PredType::PredWireDup(NodeOutputType::OutputLayer(0)), 0);
    let aux2 = CircuitGraphAuxInfo { instance_num_vars: vec![4, 2] };
    assert!(!check_graph(&g, &aux2));
    // Instance counts of the wrong length.
    let aux3 = CircuitGraphAuxInfo { instance_num_vars: vec![1] };
    assert!(!check_graph(&g, &aux3));
    // A well-formed one.
    assert!(check_graph(&g, &aux));
}

#[test]
fn claim_count_and_short_point_errors() {
    let g = two_nodes(PredType::PredWireDup(NodeOutputType::OutputLayer(0)), 0);
    let aux = CircuitGraphAuxInfo { instance_num_vars: vec![1, 3] };
    let targets = TargetEvaluations(vec![claim(vec![0; 4], 1)]);
    let mut st = IOPVerifierState::start(&g, &aux, &targets).unwrap();
    st.take_node_claims(1);
    assert_eq!(
        st.absorb_input_claims(&g, &aux, 1, &vec![]),
        Err(GKRGraphError::ClaimCountMismatch)
    );
    assert_eq!(
        st.absorb_input_claims(&g, &aux, 1, &vec![claim(vec![1, 2], 3)]),
        Err(GKRGraphError::PointTooShort)
    );
}

#[test]
fn verify_hands_each_node_its_claims() {
    let g = two_nodes(PredType::PredWire(NodeOutputType::OutputLayer(0)), 0);
    let aux = CircuitGraphAuxInfo { instance_num_vars: vec![2, 2] };
    let targets = TargetEvaluations(vec![claim(vec![1, 1], 9)]);
    let verdicts = vec![Some(vec![claim(vec![2, 2], 8)]), Some(vec![claim(vec![3, 3], 7)])];
    let out = IOPVerifierState::verify(&g, &targets, &verdicts, &aux).unwrap();
    // B is checked against the target claim, then A against B's reduced claim.
    assert_eq!(out.handed.len(), 2);
    assert_eq!(out.handed[0].output.len(), 1);
    assert_eq!(out.handed[0].output[0].point, vec![1, 1]);
    assert_eq!(out.handed[0].output[0].eval, 9);
    assert_eq!(out.handed[1].output.len(), 1);
    assert_eq!(out.handed[1].output[0].point, vec![2, 2]);
    assert_eq!(out.handed[1].output[0].eval, 8);
    assert_eq!(out.sources.len(), 1);
    assert_eq!(out.sources[0].point, vec![3, 3]);
    assert_eq!(out.sources[0].eval, 7);
}

#[test]
fn verify_forwards_over_duplicated_wire() {
    let g = two_nodes(PredType::PredWireDup(NodeOutputType::OutputLayer(0)), 0);
    let aux = CircuitGraphAuxInfo { instance_num_vars: vec![2, 5] };
    let targets = TargetEvaluations(vec![claim(vec![0; 8], 1)]);
    let verdicts = vec![
        Some(vec![claim(vec![10, 11, 12, 13, 14, 15, 16, 17], 5)]),
        Some(vec![claim(vec![1], 2)]),
    ];
    let out = IOPVerifierState::verify(&g, &targets, &verdicts, &aux).unwrap();
    assert_eq!(out.handed[1].output[0].point, vec![10, 11, 12, 16, 17]);
    assert_eq!(out.handed[1].output[0].eval, 5);
}

#[test]
fn verify_stops_at_rejected_sub_proof() {
    let g = two_nodes(PredType::PredWire(NodeOutputType::OutputLayer(0)), 0);
    let aux = CircuitGraphAuxInfo { instance_num_vars: vec![2, 2] };
    let targets = TargetEvaluations(vec![claim(vec![1, 1], 9)]);
    let first = vec![None, Some(vec![claim(vec![3, 3], 7)])];
    assert!(matches!(
        IOPVerifierState::verify(&g, &targets, &first, &aux),
        Err(GKRGraphError::SubProofRejected)
    ));
    let second = vec![Some(vec![claim(vec![2, 2], 8)]), None];
    assert!(matches!(
        IOPVerifierState::verify(&g, &targets, &second, &aux),
        Err(GKRGraphError::SubProofRejected)
    ));
    let short = vec![Some(vec![claim(vec![2, 2], 8)])];
    assert!(matches!(
        IOPVerifierState::verify(&g, &targets, &short, &aux),
        Err(GKRGraphError::ProofCountMismatch)
    ));
}

#[test]
fn duplicate_keeps_point_and_value() {
    let c = claim(vec![4, 5], 6);
    let d = c.duplicate();
    assert_eq!(d.point, vec![4, 5]);
    assert_eq!(d.eval, 6);
}
