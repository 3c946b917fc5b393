use general::algebra::{AlgebraError, MonomialFormat, Var, VarTable};

#[test]
fn register_and_bind() {
    let mut vt = VarTable::new();
    assert_eq!(vt.len(), 0);
    let x = Var::new(String::from("x"), &mut vt).unwrap();
    assert_eq!(x.index(), 0);
    assert_eq!(vt.len(), 1);
    let y = Var::new(String::from("y"), &mut vt).unwrap();
    assert_eq!(y.index(), 1);
    assert_eq!(x.name(&vt), String::from("x"));
    assert_eq!(y.name(&vt), String::from("y"));
}

#[test]
fn register_twice_fails() {
    let mut vt = VarTable::new();
    assert!(Var::new(String::from("x"), &mut vt).is_ok());
    let second = Var::new(String::from("x"), &mut vt);
    assert_eq!(second, Err(AlgebraError::DuplicateVariable));
    assert_eq!(vt.len(), 1);
}

#[test]
fn bind_by_index() {
    let mut vt = VarTable::new();
    Var::new(String::from("x"), &mut vt).unwrap();
    let v = Var::from_index(0, &vt).unwrap();
    assert_eq!(v.name(&vt), String::from("x"));
    assert_eq!(
        Var::from_index(1, &vt),
        Err(AlgebraError::IndexOutOfRange)
    );
}

#[test]
fn bind_by_name() {
    let mut vt = VarTable::new();
    Var::new(String::from("x"), &mut vt).unwrap();
    Var::new(String::from("y"), &mut vt).unwrap();
    let v = Var::from_name(String::from("y"), &vt).unwrap();
    assert_eq!(v.index(), 1);
    assert_eq!(
        Var::from_name(String::from("z"), &vt),
        Err(AlgebraError::VariableNotFound)
    );
}

#[test]
fn handles_stay_valid_as_table_grows() {
    let mut vt = VarTable::new();
    let x = Var::new(String::from("x"), &mut vt).unwrap();
    Var::new(String::from("y"), &mut vt).unwrap();
    Var::new(String::from("z"), &mut vt).unwrap();
    assert_eq!(x.index(), 0);
    assert_eq!(x.name(&vt), String::from("x"));
}

#[test]
fn format_lookup_first_match() {
    let mut vt = VarTable::new();
    let x = Var::new(String::from("x"), &mut vt).unwrap();
    let y = Var::new(String::from("y"), &mut vt).unwrap();
    let fmt = MonomialFormat::from(vec![(x, 2), (y, 5), (x, 9)]);
    assert_eq!(fmt.get(x), Some(2));
    assert_eq!(fmt.get(y), Some(5));
    // Handles are compared by index alone, so a handle from another table
    // with the same index matches the same entries.
    let mut other = VarTable::new();
    let z = Var::new(String::from("z"), &mut other).unwrap();
    Var::new(String::from("w"), &mut other).unwrap();
    let w = Var::from_index(1, &other).unwrap();
    assert_eq!(fmt.get(w), Some(5));
    assert_eq!(fmt.get(z), Some(2));
}

#[test]
fn error_messages() {
    assert_eq!(AlgebraError::ZeroDivisor.message(), "0 cannot be divisor");
    assert_eq!(
        AlgebraError::DuplicateVariable.message(),
        "variable already defined"
    );
    assert_eq!(
        AlgebraError::IndexOutOfRange.message(),
        "index is out of range"
    );
    assert_eq!(
        AlgebraError::VariableNotFound.message(),
        "no such a variable"
    );
    assert_eq!(AlgebraError::NotAMonomial.message(), "it is not a monomial");
}
