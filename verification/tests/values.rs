use herang::{HeError, Value};

fn v(items: Vec<u32>) -> Value {
    Value::new(items)
}

#[test]
fn value_new_keeps_elements_in_order() {
    assert_eq!(v(vec![3, 1, 2]).value, vec![3, 1, 2]);
    assert_eq!(Value::default().value, Vec::<u32>::new());
}

#[test]
fn value_from_bool_is_one_element() {
    assert_eq!(Value::from_bool(true).value, vec![1]);
    assert_eq!(Value::from_bool(false).value, vec![0]);
}

#[test]
fn value_truthiness() {
    assert!(!v(vec![]).truthy());
    assert!(!v(vec![0]).truthy());
    assert!(!v(vec![0, 0, 0]).truthy());
    assert!(!v(vec![1, 1, 0, 1]).truthy());
    assert!(v(vec![1]).truthy());
    assert!(v(vec![1, 2, 3]).truthy());
    assert!(v(vec![4294967295]).truthy());
}

#[test]
fn value_equality_is_by_elements() {
    assert!(v(vec![1, 2]).equals(&v(vec![1, 2])));
    assert!(!v(vec![1, 2]).equals(&v(vec![2, 1])));
    assert!(!v(vec![1, 2]).equals(&v(vec![1, 2, 0])));
    assert!(v(vec![]).equals(&v(vec![])));
}

#[test]
fn value_order_is_lexicographic() {
    assert!(v(vec![]).less_than(&v(vec![0])));
    assert!(!v(vec![0]).less_than(&v(vec![])));
    assert!(v(vec![0]).less_than(&v(vec![1, 1, 0, 1])));
    assert!(v(vec![1, 1, 0, 1]).less_than(&v(vec![1, 2, 3])));
    assert!(v(vec![1, 2]).less_than(&v(vec![1, 2, 0])));
    assert!(!v(vec![1, 2, 0]).less_than(&v(vec![1, 2])));
    assert!(!v(vec![1, 2]).less_than(&v(vec![1, 2])));
    assert!(!v(vec![2]).less_than(&v(vec![1, 9, 9])));
    assert!(v(vec![1, 9, 9]).less_than(&v(vec![2])));
}

#[test]
fn value_order_is_total_on_samples() {
    let samples = vec![vec![], vec![0], vec![0, 0], vec![1], vec![0, 1], vec![1, 0], vec![2]];
    for a in samples.iter() {
        for b in samples.iter() {
            let less = v(a.clone()).less_than(&v(b.clone()));
            let greater = v(b.clone()).less_than(&v(a.clone()));
            let equal = v(a.clone()).equals(&v(b.clone()));
            assert_eq!(less, a < b);
            assert_eq!([less, greater, equal].iter().filter(|x| **x).count(), 1);
        }
    }
}

#[test]
fn value_concat_appends() {
    assert_eq!(v(vec![1, 2]).concat(&v(vec![3])).value, vec![1, 2, 3]);
    assert_eq!(v(vec![]).concat(&v(vec![3])).value, vec![3]);
    assert_eq!(v(vec![1, 1]).concat(&v(vec![1, 1])).value, vec![1, 1, 1, 1]);
}

#[test]
fn value_arithmetic_is_elementwise() {
    assert_eq!(v(vec![1, 2]).add(&v(vec![10, 20])).unwrap().value, vec![11, 22]);
    assert_eq!(v(vec![10, 20]).sub(&v(vec![1, 2])).unwrap().value, vec![9, 18]);
    assert_eq!(v(vec![3, 4]).mul(&v(vec![5, 6])).unwrap().value, vec![15, 24]);
    assert_eq!(v(vec![7, 9]).div(&v(vec![2, 3])).unwrap().value, vec![3, 3]);
    assert_eq!(v(vec![]).add(&v(vec![])).unwrap().value, Vec::<u32>::new());
}

#[test]
fn value_arithmetic_wraps_at_32_bits() {
    assert_eq!(v(vec![4294967295]).add(&v(vec![1])).unwrap().value, vec![0]);
    assert_eq!(v(vec![0]).sub(&v(vec![1])).unwrap().value, vec![4294967295]);
    assert_eq!(v(vec![65536]).mul(&v(vec![65536])).unwrap().value, vec![0]);
    assert_eq!(v(vec![65537]).mul(&v(vec![65537])).unwrap().value, vec![131073]);
}

#[test]
fn value_arithmetic_rejects_different_lengths() {
    let r = v(vec![1, 2]).add(&v(vec![1]));
    assert!(matches!(r, Err(HeError::LengthMismatch { left: 2, right: 1 })));
    let r = v(vec![]).sub(&v(vec![1]));
    assert!(matches!(r, Err(HeError::LengthMismatch { left: 0, right: 1 })));
    let r = v(vec![1]).mul(&v(vec![1, 1, 1]));
    assert!(matches!(r, Err(HeError::LengthMismatch { left: 1, right: 3 })));
    let r = v(vec![1]).div(&v(vec![]));
    assert!(matches!(r, Err(HeError::LengthMismatch { left: 1, right: 0 })));
}

#[test]
fn value_division_rejects_zero() {
    let r = v(vec![1, 2]).div(&v(vec![1, 0]));
    assert!(matches!(r, Err(HeError::DivisionByZero)));
}

#[test]
fn value_text_form() {
    assert_eq!(v(vec![]).to_string(), "()");
    assert_eq!(v(vec![0]).to_string(), "(0)");
    assert_eq!(v(vec![1, 2]).to_string(), "(1 | 2)");
    assert_eq!(v(vec![10, 209, 4294967295]).to_string(), "(10 | 209 | 4294967295)");
}

#[test]
fn value_duplicate_is_equal() {
    let a = v(vec![5, 6, 7]);
    assert_eq!(a.duplicate().value, vec![5, 6, 7]);
}

#[test]
fn error_messages() {
    assert_eq!(HeError::Parse("a b".to_string()).message(), "Cannot parse \"a b\"");
    assert_eq!(HeError::UndefinedVariable("x".to_string()).message(), "Variable x not found");
    assert_eq!(HeError::UndefinedFunction("f".to_string()).message(), "Function f not found");
    assert_eq!(
        HeError::ArityMismatch { expected: 2, got: 10 }.message(),
        "Wrong number of arguments: expected 2, got 10"
    );
    assert_eq!(
        HeError::IndexOutOfRange("a".to_string()).message(),
        "Index out of range for variable a"
    );
    assert_eq!(
        HeError::EmptyAssignmentValue("a".to_string()).message(),
        "Cannot assign empty value to variable a"
    );
    assert_eq!(
        HeError::BroadcastLengthMismatch("a".to_string()).message(),
        "Too few indices to assign to variable a"
    );
    assert_eq!(
        HeError::DuplicateFunctionDefinition("f".to_string()).message(),
        "Function f already defined"
    );
    assert_eq!(HeError::TypeConversionFailure.message(), "Value is not valid text");
    assert_eq!(
        HeError::LengthMismatch { left: 1, right: 0 }.message(),
        "Operands differ in length: 1 and 0"
    );
    assert_eq!(HeError::DivisionByZero.message(), "Division by zero");
    assert_eq!(HeError::DepthExceeded.message(), "Too many nested scopes");
    assert_eq!(HeError::Library("out of luck".to_string()).message(), "out of luck");
}
