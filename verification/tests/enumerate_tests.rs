use quantum_cryptography::enumerate::{
    enumerate_errors, pattern_from, pauli_from_index, type_assignments,
};
use quantum_cryptography::pauli::PauliOperator;
use quantum_cryptography::pauli::PauliOperator::{X, Y, Z};

#[test]
fn pauli_from_index_orders_x_y_z() {
    assert_eq!(pauli_from_index(0), X);
    assert_eq!(pauli_from_index(1), Y);
    assert_eq!(pauli_from_index(2), Z);
    assert_eq!(pauli_from_index(3), Z);
}

#[test]
fn type_assignments_are_lexicographic() {
    assert_eq!(type_assignments(0), vec![Vec::<PauliOperator>::new()]);
    assert_eq!(type_assignments(1), vec![vec![X], vec![Y], vec![Z]]);
    assert_eq!(
        type_assignments(2),
        vec![
            vec![X, X],
            vec![X, Y],
            vec![X, Z],
            vec![Y, X],
            vec![Y, Y],
            vec![Y, Z],
            vec![Z, X],
            vec![Z, Y],
            vec![Z, Z],
        ]
    );
    assert_eq!(type_assignments(4).len(), 81);
}

#[test]
fn pattern_from_places_each_type_at_its_position() {
    let e = pattern_from(5, &vec![1, 4], &vec![Z, X]);
    assert_eq!(e.num_qubits(), 5);
    assert_eq!(e.operations(), vec![(1, Z), (4, X)]);
    let short = pattern_from(5, &vec![1, 4], &vec![Y]);
    assert_eq!(short.operations(), vec![(1, Y)]);
    let outside = pattern_from(2, &vec![1, 4], &vec![Y, X]);
    assert_eq!(outside.operations(), vec![(1, Y)]);
}

#[test]
fn enumeration_goes_by_weight_then_positions_then_types() {
    let errors = enumerate_errors(3, 3);
    let listed: Vec<Vec<(usize, PauliOperator)>> =
        errors.iter().map(|e| e.operations()).collect();
    assert_eq!(listed.len(), 1 + 3 * 3 + 3 * 9);
    assert_eq!(listed[0], vec![]);
    assert_eq!(
        listed[1..10].to_vec(),
        vec![
            vec![(0, X)],
            vec![(0, Y)],
            vec![(0, Z)],
            vec![(1, X)],
            vec![(1, Y)],
            vec![(1, Z)],
            vec![(2, X)],
            vec![(2, Y)],
            vec![(2, Z)],
        ]
    );
    assert_eq!(listed[10], vec![(0, X), (1, X)]);
    assert_eq!(listed[11], vec![(0, X), (1, Y)]);
    assert_eq!(listed[13], vec![(0, Y), (1, X)]);
    assert_eq!(listed[18], vec![(0, Z), (1, Z)]);
    assert_eq!(listed[19], vec![(0, X), (2, X)]);
    assert_eq!(listed[28], vec![(1, X), (2, X)]);
    assert_eq!(listed[36], vec![(1, Z), (2, Z)]);
    for e in errors.iter() {
        assert_eq!(e.num_qubits(), 3);
    }
}

#[test]
fn enumeration_edge_cases() {
    assert!(enumerate_errors(7, 0).is_empty());
    let only_identity = enumerate_errors(7, 1);
    assert_eq!(only_identity.len(), 1);
    assert_eq!(only_identity[0].weight(), 0);
    let no_qubits = enumerate_errors(0, 3);
    assert_eq!(no_qubits.len(), 1);
    assert_eq!(no_qubits[0].num_qubits(), 0);
    let more_weight_than_qubits = enumerate_errors(2, 5);
    assert_eq!(more_weight_than_qubits.len(), 1 + 2 * 3 + 9);
}

#[test]
fn enumeration_lists_each_pattern_once() {
    let errors = enumerate_errors(4, 3);
    for i in 0..errors.len() {
        for j in (i + 1)..errors.len() {
            assert!(!errors[i].same_as(&errors[j]));
        }
    }
    for i in 1..errors.len() {
        assert!(errors[i - 1].weight() <= errors[i].weight());
    }
}

#[test]
fn positions_follow_nested_loops() {
    let n = 6;
    let errors = enumerate_errors(n, 4);
    let mut expected: Vec<Vec<usize>> = vec![vec![]];
    for i in 0..n {
        expected.push(vec![i]);
    }
    for i in 0..n {
        for j in (i + 1)..n {
            expected.push(vec![i, j]);
        }
    }
    for i in 0..n {
        for j in (i + 1)..n {
            for k in (j + 1)..n {
                expected.push(vec![i, j, k]);
            }
        }
    }
    let mut seen: Vec<Vec<usize>> = Vec::new();
    for e in errors.iter() {
        let positions: Vec<usize> = e.operations().iter().map(|(q, _)| *q).collect();
        if seen.last() != Some(&positions) {
            seen.push(positions);
        }
    }
    assert_eq!(seen, expected);
    assert_eq!(errors.len(), 1 + 6 * 3 + 15 * 9 + 20 * 27);
}
