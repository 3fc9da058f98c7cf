use exercises::trinity::{Solver, Trinity};

#[test]
fn rotate_moves_each_value_on() {
    let mut t = Trinity { a: 1, b: 2, c: 3 };
    t.rotate();
    assert_eq!(t, Trinity { a: 3, b: 1, c: 2 });
    t.rotate();
    t.rotate();
    assert_eq!(t, Trinity { a: 1, b: 2, c: 3 });
}

#[test]
fn resolve_keeps_only_unsolvable() {
    let mut s = Solver {
        expected: Trinity { a: 1, b: 2, c: 3 },
        unsolved: vec![
            Trinity { a: 1, b: 2, c: 3 },
            Trinity { a: 2, b: 1, c: 3 },
            Trinity { a: 2, b: 3, c: 1 },
            Trinity { a: 3, b: 1, c: 2 },
        ],
    };
    s.resolve();
    assert_eq!(s.unsolved, vec![Trinity { a: 2, b: 1, c: 3 }]);
    assert_eq!(s.expected, Trinity { a: 1, b: 2, c: 3 });
}
