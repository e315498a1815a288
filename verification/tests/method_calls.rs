use avm1_matrix::call::{call_text, next_request, Number, Outcome, Property, Reply, Request, Source, Task};
use avm1_matrix::matrix::{self, Matrix, FIXED_ONE};
use avm1_matrix::object::MatrixField;
use avm1_matrix::proto::MatrixMethod;

/// A script value of the test runtime.
#[derive(Clone, Copy, Debug, PartialEq)]
enum Val {
    Undefined,
    Num(f64),
    /// A value whose conversion throws the given error.
    Throws(u32),
    /// The object of the test runtime's `other` properties.
    Obj,
}

/// What happened to a property of `this`.
#[derive(Clone, Copy, Debug, PartialEq)]
enum Written {
    Value(Val),
    Component(i32),
}

const FIELDS: [MatrixField; 6] =
    [MatrixField::A, MatrixField::B, MatrixField::C, MatrixField::D, MatrixField::Tx, MatrixField::Ty];

fn index(f: MatrixField) -> usize {
    FIELDS.iter().position(|g| *g == f).unwrap()
}

struct Runtime {
    this: [Val; 6],
    other: [Val; 6],
    gradient: [(Property, Val); 6],
    /// Setting this property throws this error.
    failing_set: Option<(MatrixField, u32)>,
    written: [Option<Written>; 6],
}

impl Runtime {
    fn new(this: [f64; 6]) -> Runtime {
        Runtime {
            this: this.map(Val::Num),
            other: [Val::Undefined; 6],
            gradient: [(Property::MatrixType, Val::Undefined); 6],
            failing_set: None,
            written: [None; 6],
        }
    }
}

fn number(v: Val) -> Result<Number, u32> {
    let n = match v {
        Val::Undefined => f64::NAN,
        Val::Num(n) => n,
        Val::Throws(e) => return Err(e),
        Val::Obj => f64::NAN,
    };
    let r = swf::Matrix::rotate(n as f32);
    Ok(Number {
        fixed: swf::Fixed16::from_f64(n).get(),
        twips: swf::Twips::from_pixels(n).get(),
        rotation: Matrix { a: r.a.get(), b: r.b.get(), c: r.c.get(), d: r.d.get(), tx: 0, ty: 0 },
        gradient_scale: swf::Fixed16::from_f64(n / 1638.4).get(),
        half_twips: swf::Twips::from_pixels(n / 2.0).get(),
    })
}

fn read(rt: &Runtime, p: Property) -> Val {
    match p {
        Property::Field(f) => rt.this[index(f)],
        _ => rt.gradient.iter().find(|(q, _)| *q == p).map(|(_, v)| *v).unwrap_or(Val::Undefined),
    }
}

enum End {
    Finished(Result<Outcome<Val>, u32>),
    Overflow,
}

/// Runs a call against the test runtime; returns how it ended and the requests it made.
fn run(task: &Task<Val>, rt: &mut Runtime, matrix_type: &str) -> (End, Vec<String>) {
    let (end, log, _) = run_answers(task, rt, matrix_type);
    (end, log)
}

/// Runs a call; also gives back the runtime's answers.
fn run_answers(
    task: &Task<Val>,
    rt: &mut Runtime,
    matrix_type: &str,
) -> (End, Vec<String>, Vec<Result<Reply<Val>, u32>>) {
    let mut answers: Vec<Result<Reply<Val>, u32>> = Vec::new();
    let mut log = Vec::new();
    loop {
        let request = next_request(task, Val::Undefined, &answers);
        log.push(format!("{:?}", request));
        let answer = match request {
            Request::Number(Source::Value(v)) => number(v).map(Reply::Number),
            Request::Number(Source::This(p)) => number(read(rt, p)).map(Reply::Number),
            Request::Number(Source::Argument(v, f)) => match v {
                Val::Obj => number(rt.other[index(f)]).map(Reply::Number),
                _ => number(Val::Undefined).map(Reply::Number),
            },
            Request::Get(f) => Ok(Reply::Value(rt.this[index(f)])),
            Request::Text(Source::This(Property::MatrixType)) => Ok(Reply::Text(matrix_type.to_string())),
            Request::Text(Source::Value(Val::Throws(e))) => Err(e),
            Request::Text(Source::Value(Val::Num(n))) => Ok(Reply::Text(n.to_string())),
            Request::Text(_) => Ok(Reply::Text("v".to_string())),
            Request::SetValue(f, _) | Request::SetComponent(f, _)
                if rt.failing_set.map(|s| s.0) == Some(f) =>
            {
                Err(rt.failing_set.unwrap().1)
            }
            Request::SetValue(f, v) => {
                rt.written[index(f)] = Some(Written::Value(v));
                Ok(Reply::Done)
            }
            Request::SetComponent(f, c) => {
                rt.written[index(f)] = Some(Written::Component(c));
                Ok(Reply::Done)
            }
            Request::Overflow => return (End::Overflow, log, answers),
            Request::Finish(r) => return (End::Finished(r), log, answers),
        };
        answers.push(answer);
    }
}

fn written_matrix(rt: &Runtime) -> Matrix {
    let c = |i: usize| match rt.written[i] {
        Some(Written::Component(c)) => c,
        other => panic!("property {} holds {:?}", i, other),
    };
    Matrix { a: c(0), b: c(1), c: c(2), d: c(3), tx: c(4), ty: c(5) }
}

fn start_matrix() -> Matrix {
    Matrix { a: 2 * FIXED_ONE, b: 0, c: FIXED_ONE / 2, d: FIXED_ONE, tx: 200, ty: -40 }
}

fn start_numbers() -> [f64; 6] {
    [2.0, 0.0, 0.5, 1.0, 10.0, -2.0]
}

fn method(m: MatrixMethod, args: Vec<Val>) -> Task<Val> {
    Task::Method(m, args)
}

#[test]
fn each_method_performs_its_own_operation() {
    let m = start_matrix();
    let run_method = |meth, args: Vec<f64>| {
        let mut rt = Runtime::new(start_numbers());
        match run(&method(meth, args.into_iter().map(Val::Num).collect()), &mut rt, "").0 {
            End::Finished(Ok(Outcome::Undefined)) => written_matrix(&rt),
            _ => panic!("the call did not write a matrix"),
        }
    };
    assert_eq!(run_method(MatrixMethod::Identity, vec![]), matrix::identity());
    assert_eq!(run_method(MatrixMethod::Scale, vec![2.0, 3.0]), matrix::scale(m, 2 * FIXED_ONE, 3 * FIXED_ONE));
    assert_eq!(run_method(MatrixMethod::Translate, vec![1.0, 2.0]), matrix::translate(m, 20, 40));
    assert_eq!(run_method(MatrixMethod::Invert, vec![]), matrix::invert(m));
    let quarter = number(Val::Num(std::f64::consts::FRAC_PI_2)).unwrap().rotation;
    assert_eq!(run_method(MatrixMethod::Rotate, vec![std::f64::consts::FRAC_PI_2]), matrix::rotate(m, quarter));
    assert_eq!(
        run_method(MatrixMethod::CreateBox, vec![2.0, 3.0, 0.0, 5.0, 6.0]),
        Matrix { a: 2 * FIXED_ONE, b: 0, c: 0, d: 3 * FIXED_ONE, tx: 100, ty: 120 }
    );
}

#[test]
fn concat_call_applies_the_argument_after_this() {
    let mut rt = Runtime::new(start_numbers());
    rt.other = [1.0, 0.0, 0.0, 1.0, 5.0, 5.0].map(Val::Num);
    match run(&method(MatrixMethod::Concat, vec![Val::Obj]), &mut rt, "").0 {
        End::Finished(Ok(Outcome::Undefined)) => {}
        _ => panic!("concat failed"),
    }
    let moved = Matrix { a: FIXED_ONE, b: 0, c: 0, d: FIXED_ONE, tx: 100, ty: 100 };
    assert_eq!(written_matrix(&rt), matrix::concat(start_matrix(), moved));
}

#[test]
fn failing_read_stops_the_read_of_a_matrix() {
    let mut rt = Runtime::new(start_numbers());
    rt.this[2] = Val::Throws(7);
    let (end, log) = run(&Task::ReadMatrix, &mut rt, "");
    assert!(matches!(end, End::Finished(Err(7))));
    // a, b and c were read; nothing after c.
    assert_eq!(log.len(), 4);
    assert!(log[2].contains("Field(C)"));
}

#[test]
fn failing_argument_leaves_this_unchanged() {
    for meth in [MatrixMethod::Scale, MatrixMethod::CreateBox, MatrixMethod::CreateGradientBox] {
        let mut rt = Runtime::new(start_numbers());
        let (end, log) = run(&method(meth, vec![Val::Num(1.0), Val::Throws(3), Val::Num(1.0)]), &mut rt, "");
        assert!(matches!(end, End::Finished(Err(3))));
        assert_eq!(log.len(), 3);
        assert_eq!(rt.written, [None; 6]);
    }
}

#[test]
fn failing_argument_object_leaves_this_unchanged() {
    let mut rt = Runtime::new(start_numbers());
    rt.other = [Val::Num(1.0), Val::Throws(9), Val::Num(0.0), Val::Num(1.0), Val::Num(0.0), Val::Num(0.0)];
    let (end, _) = run(&method(MatrixMethod::Concat, vec![Val::Obj]), &mut rt, "");
    assert!(matches!(end, End::Finished(Err(9))));
    assert_eq!(rt.written, [None; 6]);
}

#[test]
fn failing_write_stops_without_undoing() {
    let mut rt = Runtime::new(start_numbers());
    rt.failing_set = Some((MatrixField::Tx, 5));
    let m = Matrix { a: 1, b: 2, c: 3, d: 4, tx: 5, ty: 6 };
    let (end, log) = run(&Task::WriteMatrix(m), &mut rt, "");
    assert!(matches!(end, End::Finished(Err(5))));
    assert_eq!(log.len(), 6);
    let c = Written::Component;
    assert_eq!(rt.written, [Some(c(1)), Some(c(2)), Some(c(3)), Some(c(4)), None, None]);
}

#[test]
fn constructor_sets_a_first() {
    let mut rt = Runtime::new(start_numbers());
    let (_, log) = run(&Task::Construct(vec![Val::Num(3.0), Val::Num(4.0)]), &mut rt, "");
    assert!(log[0].starts_with("SetValue(A"));
    assert!(log[1].starts_with("SetValue(B"));
    assert_eq!(rt.written[0], Some(Written::Value(Val::Num(3.0))));
    assert_eq!(rt.written[2], None);
}

#[test]
fn constructor_without_arguments_writes_identity() {
    let mut rt = Runtime::new(start_numbers());
    run(&Task::Construct(vec![]), &mut rt, "");
    assert_eq!(written_matrix(&rt), matrix::identity());
}

#[test]
fn clone_and_to_string_read_raw_values() {
    let mut rt = Runtime::new(start_numbers());
    match run(&method(MatrixMethod::Clone, vec![]), &mut rt, "").0 {
        End::Finished(Ok(Outcome::Construct(v))) => {
            assert_eq!([v.a, v.b, v.c, v.d, v.tx, v.ty], rt.this);
        }
        _ => panic!("clone failed"),
    }
    let (end, log) = run(&method(MatrixMethod::ToString, vec![]), &mut rt, "");
    assert!(matches!(end, End::Finished(Ok(Outcome::Text))));
    assert_eq!(log.len(), 13);
    rt.this[4] = Val::Throws(4);
    let (end, log) = run(&method(MatrixMethod::ToString, vec![]), &mut rt, "");
    assert!(matches!(end, End::Finished(Err(4))));
    // Six reads, then the conversions up to tx.
    assert_eq!(log.len(), 12);
}

#[test]
fn gradient_description_reads_by_its_type() {
    let mut rt = Runtime::new(start_numbers());
    rt.gradient = [
        (Property::MatrixType, Val::Undefined),
        (Property::W, Val::Num(1638.4)),
        (Property::H, Val::Num(3276.8)),
        (Property::R, Val::Num(0.0)),
        (Property::X, Val::Num(1.0)),
        (Property::Y, Val::Num(2.0)),
    ];
    match run(&Task::ReadGradient, &mut rt, "box").0 {
        End::Finished(Ok(Outcome::Matrix(m))) => {
            assert_eq!(m.a, FIXED_ONE);
            assert_eq!(m.d, 2 * FIXED_ONE);
            // Moved by x and y plus half the size: 20 + 16384 and 40 + 32768 twips.
            assert_eq!((m.tx, m.ty), (20 + 16384, 40 + 32768));
        }
        _ => panic!("no gradient box"),
    }
    match run(&Task::ReadGradient, &mut rt, "linear").0 {
        End::Finished(Ok(Outcome::Matrix(m))) => assert_eq!(m, start_matrix()),
        _ => panic!("no matrix"),
    }
}

#[test]
fn overflowing_product_is_reported() {
    let mut rt = Runtime::new([30000.0, 0.0, 0.0, 30000.0, 0.0, 0.0]);
    let (end, _) = run(&method(MatrixMethod::Scale, vec![Val::Num(30000.0), Val::Num(1.0)]), &mut rt, "");
    assert!(matches!(end, End::Overflow));
    assert_eq!(rt.written, [None; 6]);
}

#[test]
fn to_string_call_text() {
    let mut rt = Runtime::new([1.0, 0.0, 0.0, 1.0, 20.0, 40.0]);
    let (end, _, answers) = run_answers(&method(MatrixMethod::ToString, vec![]), &mut rt, "");
    assert!(matches!(end, End::Finished(Ok(Outcome::Text))));
    assert_eq!(call_text(&answers), "(a=1, b=0, c=0, d=1, tx=20, ty=40)");
    assert_eq!(rt.written, [None; 6]);
}

#[test]
fn concat_without_an_object_argument() {
    // `undefined` converts to an object without the six properties: all NaN,
    // which are zero in fixed point, so the product is zero but for nothing.
    let mut rt = Runtime::new(start_numbers());
    rt.other = [1.0, 0.0, 0.0, 1.0, 5.0, 5.0].map(Val::Num);
    match run(&method(MatrixMethod::Concat, vec![]), &mut rt, "").0 {
        End::Finished(Ok(Outcome::Undefined)) => {}
        _ => panic!("concat failed"),
    }
    assert_eq!(written_matrix(&rt), Matrix { a: 0, b: 0, c: 0, d: 0, tx: 0, ty: 0 });
}

#[test]
fn gradient_box_call_ignores_the_object() {
    let args = vec![Val::Num(100.0), Val::Num(50.0), Val::Num(0.0), Val::Num(3.0)];
    let mut first = Runtime::new(start_numbers());
    let mut second = Runtime::new([7.0, 7.0, 7.0, 7.0, 7.0, 7.0]);
    run(&method(MatrixMethod::CreateGradientBox, args.clone()), &mut first, "");
    run(&method(MatrixMethod::CreateGradientBox, args.clone()), &mut second, "");
    assert_eq!(first.written, second.written);
    let before = first.written;
    run(&method(MatrixMethod::CreateGradientBox, args), &mut first, "");
    assert_eq!(first.written, before);
}
