use avm1_matrix::object::{
    apply_matrix_to_object, clone, constructor, constructor_arguments, field_at, field_name,
    identity, matrix_to_object, object_to_matrix, to_string, MatrixField, MatrixProperties,
    MatrixValues,
};

#[derive(Clone, Copy, Debug, PartialEq)]
enum Value {
    Undefined,
    Number(f64),
    Text(&'static str),
}

fn identity_values() -> MatrixValues<Value> {
    MatrixValues {
        a: Value::Number(1.0),
        b: Value::Number(0.0),
        c: Value::Number(0.0),
        d: Value::Number(1.0),
        tx: Value::Number(0.0),
        ty: Value::Number(0.0),
    }
}

fn numbers(v: [f64; 6]) -> MatrixValues<Value> {
    MatrixValues {
        a: Value::Number(v[0]),
        b: Value::Number(v[1]),
        c: Value::Number(v[2]),
        d: Value::Number(v[3]),
        tx: Value::Number(v[4]),
        ty: Value::Number(v[5]),
    }
}

fn read_all(o: &MatrixProperties<Value>) -> [Value; 6] {
    let m = object_to_matrix(o, Value::Undefined);
    [m.a, m.b, m.c, m.d, m.tx, m.ty]
}

#[test]
fn field_names_in_order() {
    let names: Vec<&str> = (0..6).map(|i| field_name(field_at(i).unwrap())).collect();
    assert_eq!(names, vec!["a", "b", "c", "d", "tx", "ty"]);
    assert_eq!(field_at(6), None);
    assert_eq!(field_at(4), Some(MatrixField::Tx));
}

#[test]
fn constructor_without_arguments_gives_identity() {
    let mut o = MatrixProperties::new();
    constructor(&mut o, Vec::new(), identity_values());
    let n = Value::Number;
    assert_eq!(read_all(&o), [n(1.0), n(0.0), n(0.0), n(1.0), n(0.0), n(0.0)]);
}

#[test]
fn constructor_sets_leading_properties() {
    let mut o = MatrixProperties::new();
    let n = Value::Number;
    constructor(&mut o, vec![n(2.0), Value::Text("x"), n(3.0)], identity_values());
    assert_eq!(o.a, Some(n(2.0)));
    assert_eq!(o.b, Some(Value::Text("x")));
    assert_eq!(o.c, Some(n(3.0)));
    assert_eq!(o.d, None);
    assert_eq!(o.tx, None);
    assert_eq!(o.ty, None);
    assert_eq!(read_all(&o)[3], Value::Undefined);
}

#[test]
fn constructor_keeps_unassigned_properties() {
    let n = Value::Number;
    let mut o = matrix_to_object(numbers([1.0, 2.0, 3.0, 4.0, 5.0, 6.0]));
    constructor(&mut o, vec![n(9.0)], identity_values());
    assert_eq!(read_all(&o), [n(9.0), n(2.0), n(3.0), n(4.0), n(5.0), n(6.0)]);
}

#[test]
fn constructor_ignores_extra_arguments() {
    let n = Value::Number;
    let mut o = MatrixProperties::new();
    let args = (1..=8).map(|i| n(i as f64)).collect();
    constructor(&mut o, args, identity_values());
    assert_eq!(read_all(&o), [n(1.0), n(2.0), n(3.0), n(4.0), n(5.0), n(6.0)]);
}

#[test]
fn identity_overwrites_every_property() {
    let n = Value::Number;
    let mut o = matrix_to_object(numbers([7.0, 7.0, 7.0, 7.0, 7.0, 7.0]));
    identity(&mut o, identity_values());
    assert_eq!(read_all(&o), [n(1.0), n(0.0), n(0.0), n(1.0), n(0.0), n(0.0)]);
}

#[test]
fn read_after_write() {
    let n = Value::Number;
    let mut o = MatrixProperties::new();
    apply_matrix_to_object(numbers([0.5, -1.0, 2.0, 3.5, 10.0, -20.0]), &mut o);
    assert_eq!(read_all(&o), [n(0.5), n(-1.0), n(2.0), n(3.5), n(10.0), n(-20.0)]);
}

#[test]
fn clone_reads_like_the_original() {
    let n = Value::Number;
    let mut o = MatrixProperties::new();
    constructor(&mut o, vec![n(2.0), Value::Text("skew")], identity_values());
    let copy = clone(&o, Value::Undefined);
    assert_eq!(read_all(&copy), read_all(&o));
    // The copy holds all six properties: the missing ones as undefined.
    assert_eq!(copy.d, Some(Value::Undefined));
    assert_eq!(copy.b, Some(Value::Text("skew")));
}

#[test]
fn constructor_arguments_in_property_order() {
    let n = Value::Number;
    let args = constructor_arguments(numbers([1.0, 2.0, 3.0, 4.0, 5.0, 6.0]));
    assert_eq!(args, vec![n(1.0), n(2.0), n(3.0), n(4.0), n(5.0), n(6.0)]);
}

#[test]
fn to_string_format() {
    let s = |x: &str| x.to_string();
    let values = MatrixValues {
        a: s("1"),
        b: s("0"),
        c: s("0"),
        d: s("1"),
        tx: s("0"),
        ty: s("undefined"),
    };
    assert_eq!(to_string(&values), "(a=1, b=0, c=0, d=1, tx=0, ty=undefined)");
}

#[test]
fn clone_of_complete_object_is_equal() {
    let o = matrix_to_object(numbers([1.5, 0.0, -2.0, 1.0, 30.0, 40.0]));
    let copy = clone(&o, Value::Undefined);
    assert_eq!(
        [copy.a, copy.b, copy.c, copy.d, copy.tx, copy.ty],
        [o.a, o.b, o.c, o.d, o.tx, o.ty]
    );
}

#[test]
fn six_arguments_replace_every_property() {
    let n = Value::Number;
    let mut o = MatrixProperties::new();
    constructor(&mut o, vec![Value::Text("t")], identity_values());
    constructor(&mut o, vec![n(1.0), n(2.0), n(3.0), n(4.0), n(5.0), n(6.0)], identity_values());
    assert_eq!(read_all(&o), [n(1.0), n(2.0), n(3.0), n(4.0), n(5.0), n(6.0)]);
}
