use general::complexes::{Complex, Component, Point, Segment, Simplex, WedgeLoop};

#[test]
fn complexes_point() {
    let p = Point;
    assert_eq!(p.dim(), Ok(0));
    println!("{:?}", p);
}

#[test]
fn complexes_segment() {
    let p = Segment;
    assert_eq!(p.dim(), Ok(1));
    println!("{:?}", p);
}

#[allow(non_snake_case)]
#[test]
fn wedge_S1() {
    let one_c = WedgeLoop::new(1).unwrap();
    let two_c = WedgeLoop::new(2).unwrap();

    assert_eq!(one_c.component(), Component::from(vec![1, 1]));
    assert_eq!(two_c.component(), Component::from(vec![1, 2]));

    println!("happ");
    println!("{:?}", one_c);
    println!("{:?}", two_c);
}

#[test]
fn mod_point() {
    let p = Point;
    assert_eq!(p.dim(), Ok(0));
    println!("{:?}", p);
    assert_eq!(p.euler(), 1);
}

#[test]
fn mod_segment() {
    let p = Segment;
    assert_eq!(p.dim(), Ok(1));
    println!("{:?}", p);
    assert_eq!(p.euler(), 1);
}

#[test]
fn print_component() {
    let c = Component::from(vec![1, 2, 3, 4]);
    println!("{}", c.debug_string());
}

#[test]
fn wedge_euler() {
    let one_c = WedgeLoop::new(1).unwrap();
    let two_c = WedgeLoop::new(2).unwrap();
    assert_eq!(one_c.euler(), 0);
    assert_eq!(two_c.euler(), -1);
    assert!(WedgeLoop::new(0).is_err());
}

#[test]
fn component_canonicalizes() {
    let c = Component::from(vec![1, 2, 0, 0]);
    assert_eq!(c.len(), 2);
    assert_eq!(c.get(0), 1);
    assert_eq!(c.get(1), 2);
    assert_eq!(c.get(2), 0);
    assert_eq!(c.get(99), 0);
    assert_eq!(c.iter_finite(), vec![1, 2]);
    assert_eq!(c, Component::from(vec![1, 2]));
    assert_ne!(c, Component::from(vec![1, 2, 3]));
    assert!(Component::from(vec![0, 0]).is_empty());
}

#[test]
fn empty_complex_has_no_dim() {
    let c = Component::from(vec![]);
    assert!(c.is_empty());
    assert_eq!(c.len(), 0);
}

#[test]
fn simplex_rendering() {
    assert_eq!(Simplex(0).debug_string(), "0-simplex");
    assert_eq!(Simplex(12).debug_string(), "12-simplex");
}

#[test]
fn component_rendering() {
    let c = Component::from(vec![1, 2]);
    assert_eq!(c.debug_string(), "0-simplex\t1\n1-simplex\t2\n");
    let empty = Component::from(vec![]);
    assert_eq!(empty.debug_string(), "");
}
