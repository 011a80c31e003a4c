use sqlite_reader::syntax::{DbValue, EvalError, Operator, ValueKind};

#[test]
fn test_equality() {
    assert_eq!(true, DbValue::Text(b"ciao".to_vec()).value_eq(&DbValue::Text(b"ciao".to_vec())));
    assert_eq!(false, !DbValue::Text(b"ciao".to_vec()).value_eq(&DbValue::Text(b"ciao".to_vec())));
    assert_eq!(true, !DbValue::Text(b"ciao".to_vec()).value_eq(&DbValue::Text(b"Ciao".to_vec())));
}

#[test]
fn test_arithmetic() {
    assert!(matches!(
        DbValue::Integer(40).op_add(DbValue::Integer(2)),
        Ok(DbValue::Integer(42))
    ));
    assert!(matches!(
        DbValue::Integer(40).op_sub(DbValue::Integer(2)),
        Ok(DbValue::Integer(38))
    ));
    assert!(matches!(
        DbValue::Integer(-7).op_div(DbValue::Integer(2)),
        Ok(DbValue::Integer(-3))
    ));
    assert!(matches!(
        DbValue::Integer(7).op_div(DbValue::Integer(0)),
        Err(EvalError::DivisionByZero)
    ));
    let concat = DbValue::Text(b"ab".to_vec()).op_add(DbValue::Text(b"cd".to_vec())).unwrap();
    assert!(matches!(&concat, DbValue::Text(s) if s.as_slice() == b"abcd"));
    assert!(matches!(
        DbValue::Integer(1).op_add(DbValue::Text(b"x".to_vec())),
        Err(EvalError::TypeMismatch(Operator::Plus, ValueKind::Integer, ValueKind::Text))
    ));
}

#[test]
fn test_ordering_within_variant() {
    assert_eq!(DbValue::Integer(1).value_lt(&DbValue::Integer(2)), Ok(true));
    assert_eq!(
        DbValue::Text(b"abc".to_vec()).value_lt(&DbValue::Text(b"abd".to_vec())),
        Ok(true)
    );
    assert!(DbValue::Integer(1).value_lt(&DbValue::Text(b"x".to_vec())).is_err());
}

#[test]
fn test_null_plus_null_is_error() {
    assert!(matches!(
        DbValue::Null.op_add(DbValue::Null),
        Err(EvalError::TypeMismatch(Operator::Plus, ValueKind::Null, ValueKind::Null))
    ));
}
