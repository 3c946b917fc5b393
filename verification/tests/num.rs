use general::algebra::{
    AddGroup, AlgebraError, Field, Monomial, MonomialFormat, Polynomial, Ring, ScaMul, Var,
    VarTable,
};
use general::num::{QQMonomial, QQPolynomial, QQ, V, ZZ};

#[test]
fn field() {
    let a = ZZ { value: 2 };
    let b = ZZ { value: 4 };
    let q = a.div(b).unwrap();

    assert_eq!(q, QQ::from_pair(1, 2).unwrap());
}

#[test]
fn vec_qq2() {
    let v = V {
        inner: (QQ::from_pair(1, 2).unwrap(), QQ::from_pair(7, 1).unwrap()),
    };

    assert_eq!(
        v.sca_mul(QQ::from_pair(5, 1).unwrap()),
        V {
            inner: (QQ::from_pair(5, 2).unwrap(), QQ::from_pair(35, 1).unwrap()),
        }
    )
}

#[test]
fn qq_polynomial_eq() {
    let mut vt = VarTable::new();
    let x = Var::new(String::from("x"), &mut vt).unwrap();
    let f1 = QQPolynomial::from_vec_int(x, vec![1, 1, 0]);
    let f2 = QQPolynomial::from_vec_int(x, vec![1, 1]);
    let f3 = QQPolynomial::from_vec_int(x, vec![1, 1, 2]);
    let f4 = QQPolynomial::from_vec_int(x, vec![1, 1, 1]);
    assert_eq!(f1, f2);
    assert_ne!(f2, f3);
    assert_ne!(f3, f4);
}

#[test]
fn qq_polynomial() {
    let mut vt = VarTable::new();
    let var = Var::new("x".into(), &mut vt).unwrap();

    let f = QQPolynomial::from_vec_int(var, vec![0, 1, 2, 3, 4]);
    let fp = |x: u128| 0 + 1 * x + 2 * x.pow(2) + 3 * x.pow(3) + 4 * x.pow(4);
    let at = vec![(var, QQ::from_pair(5, 1).unwrap())];
    assert_eq!(f.eval(&at).unwrap(), QQ::from_pair(fp(5), 1).unwrap());

    let f = QQPolynomial::from_vec_int(var, vec![0, 1, 1, 0, 0]);
    assert!(f.try_into_monomial().is_err());
    let f = QQPolynomial::from_vec_int(var, vec![0, 0, 1, 0, 0]);
    let fm = f.try_into_monomial().unwrap();
    assert_eq!(fm.coef(), QQ::one());
    assert_eq!(
        fm.eval(&vec![(var, QQ::from_pair(5, 1).unwrap())]).unwrap(),
        QQ::from_pair(25, 1).unwrap()
    );
}

#[test]
fn zz_arithmetic() {
    let a = ZZ { value: 2 };
    let b = ZZ { value: 3 };
    assert_eq!(a.add(b).value, 5);
    assert_eq!(a.mul(b).value, 6);
    assert_eq!(a.pow(10).value, 1024);
    assert_eq!(a.pow(0).value, 1);
    assert!(ZZ::zero().is_zero());
    assert!(ZZ::one().is_one());
    assert!(!a.is_zero());
}

#[test]
fn zz_division_yields_rational() {
    let a = ZZ { value: 7 };
    let q = a.div(ZZ { value: 3 }).unwrap();
    assert_eq!(q.numer(), 7);
    assert_eq!(q.denom(), 3);
    assert_eq!(a.div(ZZ::zero()), Err(AlgebraError::ZeroDivisor));
}

#[test]
fn qq_from_pair_rejects_zero_denominator() {
    assert!(QQ::from_pair(1, 2).is_ok());
    assert_eq!(QQ::from_pair(1, 0), Err(AlgebraError::ZeroDivisor));
    assert_eq!(QQ::from_pair(0, 0), Err(AlgebraError::ZeroDivisor));
}

#[test]
fn qq_identities() {
    let q = QQ::from_pair(3, 7).unwrap();
    assert_eq!(q.add(QQ::zero()), q);
    assert_eq!(q.mul(QQ::one()), q);
    assert_eq!(q.add(QQ::zero()).numer(), 3);
    assert_eq!(q.add(QQ::zero()).denom(), 7);
}

#[test]
fn qq_zero_in_any_denomination() {
    assert_eq!(QQ::from_pair(0, 1).unwrap(), QQ::from_pair(0, 1).unwrap());
    // Cross multiplication makes every zero-numerator rational equal: both
    // represent zero.
    assert_eq!(QQ::from_pair(0, 1).unwrap(), QQ::from_pair(0, 2).unwrap());
    assert!(QQ::from_pair(0, 5).unwrap().is_zero());
    assert_ne!(QQ::from_pair(1, 2).unwrap(), QQ::from_pair(0, 1).unwrap());
}

#[test]
fn qq_not_reduced() {
    let a = QQ::from_pair(1, 2).unwrap();
    let b = QQ::from_pair(3, 4).unwrap();
    let quotient = a.div(b);
    assert_eq!(quotient.numer(), 4);
    assert_eq!(quotient.denom(), 6);
    assert_eq!(quotient, QQ::from_pair(2, 3).unwrap());
    let sum = a.add(b);
    assert_eq!(sum.numer(), 10);
    assert_eq!(sum.denom(), 8);
    let product = a.mul(b);
    assert_eq!(product.numer(), 3);
    assert_eq!(product.denom(), 8);
}

#[test]
fn qq_pow_values() {
    let q = QQ::from_pair(2, 3).unwrap();
    let cube = q.pow(3);
    assert_eq!(cube.numer(), 8);
    assert_eq!(cube.denom(), 27);
    assert_eq!(q.pow(0), QQ::one());
    assert_eq!(QQ::zero().pow(0), QQ::one());
}

#[test]
fn monomial_round_trip() {
    let mut vt = VarTable::new();
    let x = Var::new(String::from("x"), &mut vt).unwrap();
    let m = QQMonomial::from_parts(3, QQ::from_pair(2, 3).unwrap(), x);
    let p = m.into_polynomial();
    let back = p.try_into_monomial().unwrap();
    assert_eq!(back.degree, 3);
    assert_eq!(back.coef, QQ::from_pair(2, 3).unwrap());
    assert_eq!(back.var, x);
}

#[test]
fn zero_monomial_collapses() {
    let mut vt = VarTable::new();
    let x = Var::new(String::from("x"), &mut vt).unwrap();
    let m = QQMonomial::new(x);
    assert_eq!(m.degree, 0);
    assert!(m.coef.is_zero());
    let p = m.into_polynomial();
    assert_eq!(p, QQPolynomial::from_vec(x, vec![]));
    assert!(!p.is_monomial());
}

#[test]
fn evaluation_scenario() {
    let mut vt = VarTable::new();
    let x = Var::new(String::from("x"), &mut vt).unwrap();
    assert_eq!(x.index(), 0);
    let f = QQPolynomial::from_vec_int(x, vec![0, 1, 2, 3, 4]);
    let value = f.eval(&vec![(x, QQ::from_pair(5, 1).unwrap())]).unwrap();
    // 0 + 1*5 + 2*25 + 3*125 + 4*625
    assert_eq!(value, QQ::from_pair(2930, 1).unwrap());
}

#[test]
fn canonicalization_scenarios() {
    let mut vt = VarTable::new();
    let x = Var::new(String::from("x"), &mut vt).unwrap();

    let f = QQPolynomial::from_vec_int(x, vec![0, 1, 1, 0, 0]);
    assert_eq!(f, QQPolynomial::from_vec_int(x, vec![0, 1, 1]));
    assert!(!f.is_monomial());
    assert_eq!(f.try_into_monomial(), Err(AlgebraError::NotAMonomial));

    let g = QQPolynomial::from_vec_int(x, vec![0, 0, 1, 0, 0]);
    assert_eq!(g, QQPolynomial::from_vec_int(x, vec![0, 0, 1]));
    assert!(g.is_monomial());
    let gm = g.try_into_monomial().unwrap();
    assert_eq!(gm.degree, 2);
    assert_eq!(gm.coef, QQ::one());
}

#[test]
fn evaluation_missing_variable() {
    let mut vt = VarTable::new();
    let x = Var::new(String::from("x"), &mut vt).unwrap();
    let y = Var::new(String::from("y"), &mut vt).unwrap();
    let f = QQPolynomial::from_vec_int(x, vec![1, 1]);
    assert_eq!(
        f.eval(&vec![(y, QQ::one())]),
        Err(AlgebraError::VariableNotFound)
    );
    let m = QQMonomial::from_parts(1, QQ::one(), x);
    assert_eq!(
        m.eval(&vec![(y, QQ::one())]),
        Err(AlgebraError::VariableNotFound)
    );
}

#[test]
fn polynomial_coef_by_format() {
    let mut vt = VarTable::new();
    let x = Var::new(String::from("x"), &mut vt).unwrap();
    let y = Var::new(String::from("y"), &mut vt).unwrap();
    let f = QQPolynomial::from_vec_int(x, vec![4, 5, 6]);
    let fmt = MonomialFormat::from(vec![(x, 1)]);
    assert_eq!(f.coef(&fmt).unwrap(), QQ::from_pair(5, 1).unwrap());
    let beyond = MonomialFormat::from(vec![(x, 7)]);
    assert_eq!(f.coef(&beyond), Err(AlgebraError::IndexOutOfRange));
    let absent = MonomialFormat::from(vec![(y, 1)]);
    assert_eq!(f.coef(&absent), Err(AlgebraError::VariableNotFound));
}

#[test]
fn monomial_accessors() {
    let mut vt = VarTable::new();
    let x = Var::new(String::from("x"), &mut vt).unwrap();
    let m = QQMonomial::from_parts(2, QQ::from_pair(3, 1).unwrap(), x);
    assert_eq!(m.vars(), vec![x]);
    assert_eq!(m.coef(), QQ::from_pair(3, 1).unwrap());
    let fmt = m.into_format();
    assert_eq!(fmt.get(x), Some(2));
    let value = m.eval(&vec![(x, QQ::from_pair(2, 1).unwrap())]).unwrap();
    assert_eq!(value, QQ::from_pair(12, 1).unwrap());
}

#[test]
fn module_axioms_on_vectors() {
    let v = V {
        inner: (QQ::from_pair(1, 2).unwrap(), QQ::from_pair(7, 1).unwrap()),
    };
    let sum = v.add(V::zero());
    assert_eq!(sum, v);
    assert!(V::zero().is_zero());
}
