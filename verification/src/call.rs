//! A call of a Matrix method, or of one of the conversions between a
//! Matrix object and its matrix, as a conversation with the script runtime.
//!
//! Reading a property, converting a value to a number or a string, and
//! setting a property are work of the runtime, and each of them may fail
//! (a getter, `valueOf` or a setter may throw). A call asks the runtime for
//! one such operation at a time: [`next_request`] gives the next request
//! from what the runtime has answered so far. A call first makes all its
//! reads and conversions, in the order in which the method makes them,
//! then computes, then makes its writes, `a` to `ty`. The first failure
//! ends the call with that error; nothing is undone.
use crate::arguments::{
    argument, argument_or, box_type, create_box_arguments, create_gradient_box_arguments,
    gradient_matrix_kind, read_slot, GradientMatrixKind, GradientProperties,
};
use crate::matrix::{
    box_matrix, concat, create_box, fits_i32, identity, identity_matrix, invert, product,
    product_defined, product_is_defined, rotate, scale, scale_matrix, swf_inverse, swf_twips_add,
    translate, translate_matrix, Matrix,
};
use crate::object::{
    constructed, field_at, field_of, matrix_text, properties_of, to_string, values_of, MatrixField,
    MatrixProperties, MatrixValues, FIELD_COUNT,
};
use crate::proto::MatrixMethod;
use vstd::prelude::*;

verus! {

/// A property that a call reads.
#[derive(Clone, Copy, Debug, PartialEq, Eq, Structural)]
pub enum Property {
    /// One of the six matrix properties.
    Field(MatrixField),
    /// `matrixType` of a gradient description object.
    MatrixType,
    /// `w` of a gradient box.
    W,
    /// `h` of a gradient box.
    H,
    /// `r` of a gradient box.
    R,
    /// `x` of a gradient box.
    X,
    /// `y` of a gradient box.
    Y,
}

/// What a conversion starts from.
#[derive(Debug)]
pub enum Source<V> {
    /// A value: an argument, or `undefined` in place of a missing one.
    Value(V),
    /// A property of the object the call is made on.
    This(Property),
    /// A matrix property of a value (the call's first argument, or
    /// `undefined` where there is none) converted to an object.
    Argument(V, MatrixField),
}

/// A number as the matrix code uses it: the runtime converts the value to
/// a number and gives it in each of these integer forms.
#[derive(Clone, Copy, Debug, PartialEq, Eq, Structural)]
pub struct Number {
    /// The number as a 16.16 fixed-point value (raw bits).
    pub fixed: i32,
    /// The number of pixels as twips.
    pub twips: i32,
    /// The rotation matrix of the number as an angle in radians.
    pub rotation: Matrix,
    /// The scale of a gradient box of this width: the number divided by
    /// 1638.4, as a fixed-point value.
    pub gradient_scale: i32,
    /// Half the number of pixels, as twips.
    pub half_twips: i32,
}

/// What a call gives back when it succeeds.
#[derive(Debug)]
pub enum Outcome<V> {
    /// `undefined`.
    Undefined,
    /// A matrix.
    Matrix(Matrix),
    /// A new Matrix object, constructed with these six values as arguments.
    Construct(MatrixValues<V>),
    /// The text of the six strings that the call's string conversions gave
    /// (answers 6 to 11), which [`call_text`] makes from the answers.
    Text,
}

/// What a call asks the runtime for.
#[derive(Debug)]
pub enum Request<V, E> {
    /// Convert to a number (reading the property first, where the source is
    /// one); the answer is [`Reply::Number`].
    Number(Source<V>),
    /// Read a matrix property of the object as it is; the answer is
    /// [`Reply::Value`].
    Get(MatrixField),
    /// Convert to a string (reading the property first, where the source is
    /// one); the answer is [`Reply::Text`].
    Text(Source<V>),
    /// Set a matrix property of the object to a value; the answer is
    /// [`Reply::Done`].
    SetValue(MatrixField, V),
    /// Set a matrix property of the object to a component of a matrix: the
    /// fixed-point bits for `a`..`d`, twips for `tx` and `ty`; the answer is
    /// [`Reply::Done`].
    SetComponent(MatrixField, i32),
    /// The fixed-point arithmetic overflows, on which `swf` panics.
    Overflow,
    /// The call ends, with its outcome or the first error.
    Finish(Result<Outcome<V>, E>),
}

/// An answer of the runtime to a request.
#[derive(Debug)]
pub enum Reply<V> {
    Number(Number),
    Value(V),
    Text(String),
    Done,
}

/// A call: of a method, of the constructor, or of one of the conversions.
#[derive(Debug)]
pub enum Task<V> {
    /// The constructor, with its arguments.
    Construct(Vec<V>),
    /// A method of the prototype, with its arguments.
    Method(MatrixMethod, Vec<V>),
    /// `object_to_matrix`: the matrix of the object.
    ReadMatrix,
    /// `gradient_object_to_matrix`: the matrix of a gradient description.
    ReadGradient,
    /// `apply_matrix_to_object`: write a matrix into the object.
    WriteMatrix(Matrix),
}

/// The first error among the answers from position `i` on.
pub open spec fn first_error_from<V, E>(h: Seq<Result<Reply<V>, E>>, i: int) -> Option<E>
    decreases h.len() - i,
{
    if i < 0 || i >= h.len() {
        None
    } else {
        match h[i] {
            Err(e) => Some(e),
            Ok(_) => first_error_from(h, i + 1),
        }
    }
}

/// The first error among the answers.
pub open spec fn first_error<V, E>(h: Seq<Result<Reply<V>, E>>) -> Option<E> {
    first_error_from(h, 0)
}

/// A number that stands in for a missing answer.
pub open spec fn no_number() -> Number {
    Number { fixed: 0, twips: 0, rotation: identity_matrix(), gradient_scale: 0, half_twips: 0 }
}

/// The number of answer `i`.
pub open spec fn number_at<V, E>(h: Seq<Result<Reply<V>, E>>, i: int) -> Number {
    if 0 <= i < h.len() {
        match h[i] {
            Ok(Reply::Number(n)) => n,
            _ => no_number(),
        }
    } else {
        no_number()
    }
}

/// The value of answer `i`.
pub open spec fn value_at<V, E>(h: Seq<Result<Reply<V>, E>>, i: int, undefined: V) -> V {
    if 0 <= i < h.len() {
        match h[i] {
            Ok(Reply::Value(v)) => v,
            _ => undefined,
        }
    } else {
        undefined
    }
}

/// The string of answer `i`.
pub open spec fn text_at<V, E>(h: Seq<Result<Reply<V>, E>>, i: int) -> Seq<char> {
    if 0 <= i < h.len() {
        match h[i] {
            Ok(Reply::Text(s)) => s@,
            _ => Seq::empty(),
        }
    } else {
        Seq::empty()
    }
}

/// The matrix of the six numbers from answer `i` on (`a`..`ty`).
pub open spec fn matrix_at<V, E>(h: Seq<Result<Reply<V>, E>>, i: int) -> Matrix {
    Matrix {
        a: number_at(h, i).fixed,
        b: number_at(h, i + 1).fixed,
        c: number_at(h, i + 2).fixed,
        d: number_at(h, i + 3).fixed,
        tx: number_at(h, i + 4).twips,
        ty: number_at(h, i + 5).twips,
    }
}

/// The six values from answer `i` on.
pub open spec fn values_at<V, E>(h: Seq<Result<Reply<V>, E>>, i: int, undefined: V) -> MatrixValues<V> {
    MatrixValues {
        a: value_at(h, i, undefined),
        b: value_at(h, i + 1, undefined),
        c: value_at(h, i + 2, undefined),
        d: value_at(h, i + 3, undefined),
        tx: value_at(h, i + 4, undefined),
        ty: value_at(h, i + 5, undefined),
    }
}

/// The matrix that `swf`'s `invert` makes of `m`.
pub open spec fn inverse_of(m: Matrix) -> Matrix {
    let t = swf_inverse(m@);
    Matrix { a: t.0, b: t.1, c: t.2, d: t.3, tx: t.4, ty: t.5 }
}

/// The six number conversions that read a matrix, `a` to `ty`: of the
/// object the call is made on, or of `value` converted to an object.
pub open spec fn matrix_reads<V, E>(of: Option<V>) -> Seq<Request<V, E>> {
    Seq::new(
        6,
        |i: int|
            match of {
                Some(value) => Request::Number(Source::Argument(value, field_of(i))),
                None => Request::Number(Source::This(Property::Field(field_of(i)))),
            },
    )
}

/// The number conversion of argument `i`, or of `undefined` in its place.
pub open spec fn number_of_argument<V, E>(args: Seq<V>, i: int, undefined: V) -> Request<V, E> {
    Request::Number(Source::Value(argument_or(args, i, undefined)))
}

/// The number conversion of argument `i` where the call has it.
pub open spec fn optional_number<V, E>(args: Seq<V>, i: int) -> Seq<Request<V, E>> {
    if 0 <= i < args.len() {
        seq![Request::Number(Source::Value(args[i]))]
    } else {
        Seq::empty()
    }
}

/// The reads and conversions that a call makes, in order. Only the reads of
/// a gradient description depend on an earlier answer: the `matrixType`.
pub open spec fn reads<V, E>(task: Task<V>, undefined: V, h: Seq<Result<Reply<V>, E>>) -> Seq<
    Request<V, E>,
> {
    match task {
        Task::Construct(_) => Seq::empty(),
        Task::WriteMatrix(_) => Seq::empty(),
        Task::ReadMatrix => matrix_reads(None),
        Task::ReadGradient => seq![Request::Text(Source::This(Property::MatrixType))] + if text_at(
            h,
            0,
        ) == box_type() {
            seq![
                Request::Number(Source::This(Property::W)),
                Request::Number(Source::This(Property::H)),
                Request::Number(Source::This(Property::R)),
                Request::Number(Source::This(Property::X)),
                Request::Number(Source::This(Property::Y)),
            ]
        } else {
            matrix_reads(None)
        },
        Task::Method(method, args) => {
            let u = undefined;
            match method {
                MatrixMethod::ToString => Seq::new(6, |i: int| Request::Get(field_of(i))) + Seq::new(
                    6,
                    |i: int| Request::Text(Source::Value(value_at(h, i, u))),
                ),
                MatrixMethod::Identity => Seq::empty(),
                MatrixMethod::Clone => Seq::new(6, |i: int| Request::Get(field_of(i))),
                MatrixMethod::Scale => seq![
                    number_of_argument(args@, 0, u),
                    number_of_argument(args@, 1, u),
                ] + matrix_reads(None),
                MatrixMethod::Rotate => seq![number_of_argument(args@, 0, u)] + matrix_reads(None),
                MatrixMethod::Translate => seq![
                    number_of_argument(args@, 0, u),
                    number_of_argument(args@, 1, u),
                ] + matrix_reads(None),
                MatrixMethod::Concat => matrix_reads(None) + matrix_reads(Some(argument_or(args@, 0, u))),
                MatrixMethod::Invert => matrix_reads(None),
                MatrixMethod::CreateBox => seq![
                    number_of_argument(args@, 0, u),
                    number_of_argument(args@, 1, u),
                    number_of_argument(args@, 2, u),
                ] + optional_number(args@, 3) + optional_number(args@, 4),
                MatrixMethod::CreateGradientBox => seq![
                    number_of_argument(args@, 0, u),
                    number_of_argument(args@, 1, u),
                ] + optional_number(args@, 2) + optional_number(args@, 3) + optional_number(
                    args@,
                    4,
                ),
            }
        },
    }
}

/// The writes of a matrix, `a` to `ty`.
pub open spec fn matrix_writes<V, E>(m: Matrix) -> Seq<Request<V, E>> {
    seq![
        Request::SetComponent(MatrixField::A, m.a),
        Request::SetComponent(MatrixField::B, m.b),
        Request::SetComponent(MatrixField::C, m.c),
        Request::SetComponent(MatrixField::D, m.d),
        Request::SetComponent(MatrixField::Tx, m.tx),
        Request::SetComponent(MatrixField::Ty, m.ty),
    ]
}

/// The writes of a matrix, then the end of the call.
pub open spec fn write_then_finish<V, E>(m: Matrix) -> Seq<Request<V, E>> {
    matrix_writes(m) + seq![Request::Finish(Ok(Outcome::Undefined))]
}

/// A product that the method writes into the object, or the overflow.
pub open spec fn write_product<V, E>(lhs: Matrix, rhs: Matrix) -> Seq<Request<V, E>> {
    if product_defined(lhs, rhs) {
        write_then_finish(product(lhs, rhs))
    } else {
        seq![Request::Overflow]
    }
}

/// A box with its rotation and move, or the overflow.
pub open spec fn box_or_overflow(
    scale_x: i32,
    scale_y: i32,
    rotation: Matrix,
    x: int,
    y: int,
) -> Option<Matrix> {
    if product_defined(rotation, scale_matrix(scale_x, scale_y)) && fits_i32(x) && fits_i32(y) {
        Some(box_matrix(scale_x, scale_y, rotation, x as i32, y as i32))
    } else {
        None
    }
}

/// The gradient box of the numbers width, height, rotation, x and y: the
/// gradient scales, and the move by x and y plus half the size.
pub open spec fn gradient_box(
    width: Number,
    height: Number,
    rotation: Matrix,
    x: int,
    y: int,
) -> Option<Matrix> {
    box_or_overflow(
        width.gradient_scale,
        height.gradient_scale,
        rotation,
        x + width.half_twips,
        y + height.half_twips,
    )
}

/// Writes a box into the object, or reports the overflow.
pub open spec fn write_box<V, E>(b: Option<Matrix>) -> Seq<Request<V, E>> {
    match b {
        Some(m) => write_then_finish(m),
        None => seq![Request::Overflow],
    }
}

/// The constructor's writes: the first six arguments, `a` first.
pub open spec fn argument_writes<V, E>(args: Seq<V>) -> Seq<Request<V, E>> {
    Seq::new(
        if args.len() < 6 {
            args.len()
        } else {
            6
        },
        |i: int| Request::SetValue(field_of(i), args[i]),
    )
}

/// What a call does once all its reads and conversions succeeded: its
/// writes, then its end; or the overflow.
pub open spec fn tail<V, E>(task: Task<V>, undefined: V, h: Seq<Result<Reply<V>, E>>) -> Seq<
    Request<V, E>,
> {
    match task {
        Task::Construct(args) => if args.len() == 0 {
            write_then_finish(identity_matrix())
        } else {
            argument_writes(args@) + seq![Request::Finish(Ok(Outcome::Undefined))]
        },
        Task::WriteMatrix(m) => write_then_finish(m),
        Task::ReadMatrix => seq![Request::Finish(Ok(Outcome::Matrix(matrix_at(h, 0))))],
        Task::ReadGradient => if text_at(h, 0) == box_type() {
            match gradient_box(
                number_at(h, 1),
                number_at(h, 2),
                number_at(h, 3).rotation,
                number_at(h, 4).twips as int,
                number_at(h, 5).twips as int,
            ) {
                Some(m) => seq![Request::Finish(Ok(Outcome::Matrix(m)))],
                None => seq![Request::Overflow],
            }
        } else {
            seq![Request::Finish(Ok(Outcome::Matrix(matrix_at(h, 1))))]
        },
        Task::Method(method, args) => {
            let n = args.len();
            match method {
                MatrixMethod::ToString => seq![Request::Finish(Ok(Outcome::Text))],
                MatrixMethod::Identity => write_then_finish(identity_matrix()),
                MatrixMethod::Clone => seq![
                    Request::Finish(Ok(Outcome::Construct(values_at(h, 0, undefined)))),
                ],
                MatrixMethod::Scale => write_product(
                    scale_matrix(number_at(h, 0).fixed, number_at(h, 1).fixed),
                    matrix_at(h, 2),
                ),
                MatrixMethod::Rotate => write_product(number_at(h, 0).rotation, matrix_at(h, 1)),
                MatrixMethod::Translate => write_product(
                    translate_matrix(number_at(h, 0).twips, number_at(h, 1).twips),
                    matrix_at(h, 2),
                ),
                MatrixMethod::Concat => write_product(matrix_at(h, 6), matrix_at(h, 0)),
                MatrixMethod::Invert => write_then_finish(inverse_of(matrix_at(h, 0))),
                MatrixMethod::CreateBox => write_box(
                    box_or_overflow(
                        number_at(h, 0).fixed,
                        number_at(h, 1).fixed,
                        number_at(h, 2).rotation,
                        if n > 3 {
                            number_at(h, 3).twips as int
                        } else {
                            0
                        },
                        if n > 4 {
                            number_at(h, 4).twips as int
                        } else {
                            0
                        },
                    ),
                ),
                MatrixMethod::CreateGradientBox => write_box(
                    gradient_box(
                        number_at(h, 0),
                        number_at(h, 1),
                        if n > 2 {
                            number_at(h, 2).rotation
                        } else {
                            identity_matrix()
                        },
                        if n > 3 {
                            number_at(h, 3).twips as int
                        } else {
                            0
                        },
                        if n > 4 {
                            number_at(h, 4).twips as int
                        } else {
                            0
                        },
                    ),
                ),
            }
        },
    }
}

/// The request a call makes after the answers `h`: the end with the first
/// error where an answer failed; otherwise its next read, or once the reads
/// are done its next write or its end.
pub open spec fn request<V, E>(task: Task<V>, undefined: V, h: Seq<Result<Reply<V>, E>>) -> Request<
    V,
    E,
> {
    let r = reads(task, undefined, h);
    let t = tail(task, undefined, h);
    match first_error(h) {
        Some(e) => Request::Finish(Err(e)),
        None => if h.len() < r.len() {
            r[h.len() as int]
        } else if h.len() - r.len() < t.len() {
            t[h.len() - r.len()]
        } else {
            t.last()
        },
    }
}


/// The first error among the answers, if any.
fn find_error<V, E: Copy>(h: &Vec<Result<Reply<V>, E>>) -> (r: Option<E>)
    ensures
        r == first_error(h@),
{
    let mut i: usize = 0;
    while i < h.len()
        invariant
            i <= h@.len(),
            first_error(h@) == first_error_from(h@, i as int),
        decreases h.len() - i,
    {
        match &h[i] {
            Err(e) => {
                return Some(*e);
            },
            Ok(_) => {},
        }
        i = i + 1;
    }
    None
}

/// The number of answer `i`.
fn number<V, E>(h: &Vec<Result<Reply<V>, E>>, i: usize) -> (n: Number)
    ensures
        n == number_at(h@, i as int),
{
    if i < h.len() {
        match &h[i] {
            Ok(Reply::Number(n)) => *n,
            _ => Number {
                fixed: 0,
                twips: 0,
                rotation: identity(),
                gradient_scale: 0,
                half_twips: 0,
            },
        }
    } else {
        Number { fixed: 0, twips: 0, rotation: identity(), gradient_scale: 0, half_twips: 0 }
    }
}

/// The value of answer `i`.
fn value<V: Copy, E>(h: &Vec<Result<Reply<V>, E>>, i: usize, undefined: V) -> (v: V)
    ensures
        v == value_at(h@, i as int, undefined),
{
    if i < h.len() {
        match &h[i] {
            Ok(Reply::Value(v)) => *v,
            _ => undefined,
        }
    } else {
        undefined
    }
}

/// Whether answer `i` is the string `"box"`.
fn answer_is_box<V, E>(h: &Vec<Result<Reply<V>, E>>, i: usize) -> (b: bool)
    ensures
        b == (text_at(h@, i as int) == box_type()),
{
    if i < h.len() {
        match &h[i] {
            Ok(Reply::Text(s)) => {
                let kind = gradient_matrix_kind(s.as_str());
                kind == GradientMatrixKind::Box
            },
            _ => {
                assert(Seq::<char>::empty().len() != box_type().len());
                false
            },
        }
    } else {
        assert(Seq::<char>::empty().len() != box_type().len());
        false
    }
}

/// The matrix of the six numbers from answer `i` on.
fn matrix_from<V, E>(h: &Vec<Result<Reply<V>, E>>, i: usize) -> (m: Matrix)
    requires
        i + 6 <= usize::MAX,
    ensures
        m == matrix_at(h@, i as int),
{
    Matrix {
        a: number(h, i).fixed,
        b: number(h, i + 1).fixed,
        c: number(h, i + 2).fixed,
        d: number(h, i + 3).fixed,
        tx: number(h, i + 4).twips,
        ty: number(h, i + 5).twips,
    }
}

/// The six values from answer `i` on.
fn values_from<V: Copy, E>(h: &Vec<Result<Reply<V>, E>>, i: usize, undefined: V) -> (m: MatrixValues<V>)
    requires
        i + 6 <= usize::MAX,
    ensures
        m == values_at(h@, i as int, undefined),
{
    MatrixValues {
        a: value(h, i, undefined),
        b: value(h, i + 1, undefined),
        c: value(h, i + 2, undefined),
        d: value(h, i + 3, undefined),
        tx: value(h, i + 4, undefined),
        ty: value(h, i + 5, undefined),
    }
}

/// Appends the six number conversions that read a matrix.
fn push_matrix_reads<V: Copy, E>(v: &mut Vec<Request<V, E>>, of: Option<V>)
    ensures
        final(v)@ == old(v)@ + matrix_reads::<V, E>(of),
{
    let ghost start = v@;
    let mut i: usize = 0;
    while i < FIELD_COUNT
        invariant
            i <= FIELD_COUNT,
            v@ == start + matrix_reads::<V, E>(of).take(i as int),
        decreases FIELD_COUNT - i,
    {
        let field = field_at(i).unwrap();
        match of {
            Some(value) => v.push(Request::Number(Source::Argument(value, field))),
            None => v.push(Request::Number(Source::This(Property::Field(field)))),
        }
        assert(matrix_reads::<V, E>(of).take(i + 1) =~= matrix_reads::<V, E>(of).take(
            i as int,
        ).push(matrix_reads::<V, E>(of)[i as int]));
        i = i + 1;
    }
    assert(matrix_reads::<V, E>(of).take(6) =~= matrix_reads::<V, E>(of));
}

/// Appends the six reads of the matrix properties as they are.
fn push_gets<V, E>(v: &mut Vec<Request<V, E>>)
    ensures
        final(v)@ == old(v)@ + Seq::new(6, |i: int| Request::<V, E>::Get(field_of(i))),
{
    let ghost start = v@;
    let ghost gets = Seq::new(6, |i: int| Request::<V, E>::Get(field_of(i)));
    let mut i: usize = 0;
    while i < FIELD_COUNT
        invariant
            i <= FIELD_COUNT,
            gets == Seq::new(6, |i: int| Request::<V, E>::Get(field_of(i))),
            v@ == start + gets.take(i as int),
        decreases FIELD_COUNT - i,
    {
        v.push(Request::Get(field_at(i).unwrap()));
        assert(gets.take(i + 1) =~= gets.take(i as int).push(gets[i as int]));
        i = i + 1;
    }
    assert(gets.take(6) =~= gets);
}

/// Appends the string conversions of the six values read first.
fn push_texts<V: Copy, E>(v: &mut Vec<Request<V, E>>, h: &Vec<Result<Reply<V>, E>>, undefined: V)
    ensures
        final(v)@ == old(v)@ + Seq::new(
            6,
            |i: int| Request::<V, E>::Text(Source::Value(value_at(h@, i, undefined))),
        ),
{
    let ghost start = v@;
    let ghost texts = Seq::new(
        6,
        |i: int| Request::<V, E>::Text(Source::Value(value_at(h@, i, undefined))),
    );
    let mut i: usize = 0;
    while i < FIELD_COUNT
        invariant
            i <= FIELD_COUNT,
            texts == Seq::new(
                6,
                |i: int| Request::<V, E>::Text(Source::Value(value_at(h@, i, undefined))),
            ),
            v@ == start + texts.take(i as int),
        decreases FIELD_COUNT - i,
    {
        v.push(Request::Text(Source::Value(value(h, i, undefined))));
        assert(texts.take(i + 1) =~= texts.take(i as int).push(texts[i as int]));
        i = i + 1;
    }
    assert(texts.take(6) =~= texts);
}

/// Appends the number conversion of an operand, where there is one.
fn push_optional_number<V: Copy, E>(v: &mut Vec<Request<V, E>>, operand: Option<V>)
    ensures
        final(v)@ == old(v)@ + match operand {
            Some(x) => seq![Request::<V, E>::Number(Source::Value(x))],
            None => Seq::empty(),
        },
{
    match operand {
        Some(x) => {
            v.push(Request::Number(Source::Value(x)));
        },
        None => {},
    }
    assert(v@ =~= old(v)@ + match operand {
        Some(x) => seq![Request::<V, E>::Number(Source::Value(x))],
        None => Seq::empty(),
    });
}

/// The number conversion of argument `i`, or of `undefined` in its place.
fn argument_number<V: Copy, E>(args: &Vec<V>, i: usize, undefined: V) -> (r: Request<V, E>)
    ensures
        r == number_of_argument::<V, E>(args@, i as int, undefined),
{
    if i < args.len() {
        Request::Number(Source::Value(args[i]))
    } else {
        Request::Number(Source::Value(undefined))
    }
}

/// The reads and conversions of a call, in order.
fn build_reads<V: Copy, E>(task: &Task<V>, undefined: V, h: &Vec<Result<Reply<V>, E>>) -> (r: Vec<
    Request<V, E>,
>)
    ensures
        r@ == reads(*task, undefined, h@),
{
    let mut r: Vec<Request<V, E>> = Vec::new();
    match task {
        Task::Construct(_) => {},
        Task::WriteMatrix(_) => {},
        Task::ReadMatrix => {
            push_matrix_reads(&mut r, None);
        },
        Task::ReadGradient => {
            r.push(Request::Text(Source::This(Property::MatrixType)));
            if answer_is_box(h, 0) {
                r.push(Request::Number(Source::This(Property::W)));
                r.push(Request::Number(Source::This(Property::H)));
                r.push(Request::Number(Source::This(Property::R)));
                r.push(Request::Number(Source::This(Property::X)));
                r.push(Request::Number(Source::This(Property::Y)));
            } else {
                push_matrix_reads(&mut r, None);
            }
        },
        Task::Method(method, args) => {
            let u = undefined;
            match method {
                MatrixMethod::ToString => {
                    push_gets(&mut r);
                    push_texts(&mut r, h, u);
                },
                MatrixMethod::Identity => {},
                MatrixMethod::Clone => {
                    push_gets(&mut r);
                },
                MatrixMethod::Scale | MatrixMethod::Translate => {
                    r.push(argument_number(args, 0, u));
                    r.push(argument_number(args, 1, u));
                    push_matrix_reads(&mut r, None);
                },
                MatrixMethod::Rotate => {
                    r.push(argument_number(args, 0, u));
                    push_matrix_reads(&mut r, None);
                },
                MatrixMethod::Concat => {
                    push_matrix_reads(&mut r, None);
                    push_matrix_reads(&mut r, Some(argument(args, 0, u)));
                },
                MatrixMethod::Invert => {
                    push_matrix_reads(&mut r, None);
                },
                MatrixMethod::CreateBox => {
                    let b = create_box_arguments(args, u);
                    r.push(Request::Number(Source::Value(b.horizontal)));
                    r.push(Request::Number(Source::Value(b.vertical)));
                    push_optional_number(&mut r, b.rotation);
                    push_optional_number(&mut r, b.translate_x);
                    push_optional_number(&mut r, b.translate_y);
                },
                MatrixMethod::CreateGradientBox => {
                    let b = create_gradient_box_arguments(args, u);
                    r.push(Request::Number(Source::Value(b.horizontal)));
                    r.push(Request::Number(Source::Value(b.vertical)));
                    push_optional_number(&mut r, b.rotation);
                    push_optional_number(&mut r, b.translate_x);
                    push_optional_number(&mut r, b.translate_y);
                },
            }
        },
    }
    assert(r@ =~= reads(*task, undefined, h@));
    r
}


/// Appends the writes of a matrix and the end of the call.
fn push_write_then_finish<V, E>(v: &mut Vec<Request<V, E>>, m: Matrix)
    requires
        old(v)@.len() == 0,
    ensures
        final(v)@ == write_then_finish::<V, E>(m),
{
    v.push(Request::SetComponent(MatrixField::A, m.a));
    v.push(Request::SetComponent(MatrixField::B, m.b));
    v.push(Request::SetComponent(MatrixField::C, m.c));
    v.push(Request::SetComponent(MatrixField::D, m.d));
    v.push(Request::SetComponent(MatrixField::Tx, m.tx));
    v.push(Request::SetComponent(MatrixField::Ty, m.ty));
    v.push(Request::Finish(Ok(Outcome::Undefined)));
    assert(v@ =~= write_then_finish::<V, E>(m));
}

/// The scale matrix of two fixed-point factors.
fn scale_of(scale_x: i32, scale_y: i32) -> (m: Matrix)
    ensures
        m == scale_matrix(scale_x, scale_y),
{
    Matrix { a: scale_x, b: 0, c: 0, d: scale_y, tx: 0, ty: 0 }
}

/// The box with its rotation and move, where it computes without overflow.
fn box_of(scale_x: i32, scale_y: i32, rotation: Matrix, x: i64, y: i64) -> (b: Option<Matrix>)
    ensures
        b == box_or_overflow(scale_x, scale_y, rotation, x as int, y as int),
{
    if product_is_defined(rotation, scale_of(scale_x, scale_y)) && -0x8000_0000 <= x && x
        <= 0x7fff_ffff && -0x8000_0000 <= y && y <= 0x7fff_ffff {
        Some(create_box(scale_x, scale_y, rotation, x as i32, y as i32))
    } else {
        None
    }
}

/// Writes a box into the object, or reports the overflow.
fn push_box<V, E>(v: &mut Vec<Request<V, E>>, b: Option<Matrix>)
    requires
        old(v)@.len() == 0,
    ensures
        final(v)@ == write_box::<V, E>(b),
{
    match b {
        Some(m) => push_write_then_finish(v, m),
        None => {
            v.push(Request::Overflow);
            assert(v@ =~= seq![Request::<V, E>::Overflow]);
        },
    }
}

/// The translation of a gradient box: the move plus half the size, where
/// the sum fits.
fn gradient_shift(shift: i32, half: i32) -> (r: i64)
    ensures
        r == shift + half,
{
    if -0x8000_0000 <= shift as i64 + half as i64 && shift as i64 + half as i64 <= 0x7fff_ffff {
        swf_twips_add(shift, half) as i64
    } else {
        shift as i64 + half as i64
    }
}

/// The writes and the end of a call, once its reads succeeded.
fn build_tail<V: Copy, E>(task: &Task<V>, undefined: V, h: &Vec<Result<Reply<V>, E>>) -> (t: Vec<
    Request<V, E>,
>)
    ensures
        t@ == tail(*task, undefined, h@),
{
    let mut t: Vec<Request<V, E>> = Vec::new();
    match task {
        Task::Construct(args) => {
            if args.len() == 0 {
                push_write_then_finish(&mut t, identity());
            } else {
                let n = if args.len() < FIELD_COUNT {
                    args.len()
                } else {
                    FIELD_COUNT
                };
                let ghost writes = argument_writes::<V, E>(args@);
                let mut i: usize = 0;
                while i < n
                    invariant
                        i <= n,
                        n == writes.len(),
                        n <= args@.len(),
                        writes == argument_writes::<V, E>(args@),
                        t@ == writes.take(i as int),
                    decreases n - i,
                {
                    t.push(Request::SetValue(field_at(i).unwrap(), args[i]));
                    assert(writes.take(i + 1) =~= writes.take(i as int).push(writes[i as int]));
                    i = i + 1;
                }
                assert(writes.take(n as int) =~= writes);
                t.push(Request::Finish(Ok(Outcome::Undefined)));
            }
        },
        Task::WriteMatrix(m) => {
            push_write_then_finish(&mut t, *m);
        },
        Task::ReadMatrix => {
            t.push(Request::Finish(Ok(Outcome::Matrix(matrix_from(h, 0)))));
        },
        Task::ReadGradient => {
            if answer_is_box(h, 0) {
                let (w, hh) = (number(h, 1), number(h, 2));
                let x = gradient_shift(number(h, 4).twips, w.half_twips);
                let y = gradient_shift(number(h, 5).twips, hh.half_twips);
                match box_of(w.gradient_scale, hh.gradient_scale, number(h, 3).rotation, x, y) {
                    Some(m) => t.push(Request::Finish(Ok(Outcome::Matrix(m)))),
                    None => t.push(Request::Overflow),
                }
            } else {
                t.push(Request::Finish(Ok(Outcome::Matrix(matrix_from(h, 1)))));
            }
        },
        Task::Method(method, args) => {
            let n = args.len();
            match method {
                MatrixMethod::ToString => {
                    t.push(Request::Finish(Ok(Outcome::Text)));
                },
                MatrixMethod::Identity => {
                    push_write_then_finish(&mut t, identity());
                },
                MatrixMethod::Clone => {
                    t.push(Request::Finish(Ok(Outcome::Construct(values_from(h, 0, undefined)))));
                },
                MatrixMethod::Scale => {
                    let (sx, sy, m) = (number(h, 0).fixed, number(h, 1).fixed, matrix_from(h, 2));
                    if product_is_defined(scale_of(sx, sy), m) {
                        push_write_then_finish(&mut t, scale(m, sx, sy));
                    } else {
                        t.push(Request::Overflow);
                    }
                },
                MatrixMethod::Rotate => {
                    let (rotation, m) = (number(h, 0).rotation, matrix_from(h, 1));
                    if product_is_defined(rotation, m) {
                        push_write_then_finish(&mut t, rotate(m, rotation));
                    } else {
                        t.push(Request::Overflow);
                    }
                },
                MatrixMethod::Translate => {
                    let (x, y, m) = (number(h, 0).twips, number(h, 1).twips, matrix_from(h, 2));
                    proof {
                        crate::matrix::lemma_translate_defined(m, x, y);
                    }
                    push_write_then_finish(&mut t, translate(m, x, y));
                },
                MatrixMethod::Concat => {
                    let (this, other) = (matrix_from(h, 0), matrix_from(h, 6));
                    if product_is_defined(other, this) {
                        push_write_then_finish(&mut t, concat(this, other));
                    } else {
                        t.push(Request::Overflow);
                    }
                },
                MatrixMethod::Invert => {
                    push_write_then_finish(&mut t, invert(matrix_from(h, 0)));
                },
                MatrixMethod::CreateBox => {
                    let x: i64 = if n > 3 {
                        number(h, 3).twips as i64
                    } else {
                        0
                    };
                    let y: i64 = if n > 4 {
                        number(h, 4).twips as i64
                    } else {
                        0
                    };
                    push_box(&mut t, box_of(number(h, 0).fixed, number(h, 1).fixed, number(h, 2).rotation, x, y));
                },
                MatrixMethod::CreateGradientBox => {
                    let (w, hh) = (number(h, 0), number(h, 1));
                    let rotation = if n > 2 {
                        number(h, 2).rotation
                    } else {
                        identity()
                    };
                    let x = gradient_shift(if n > 3 { number(h, 3).twips } else { 0 }, w.half_twips);
                    let y = gradient_shift(if n > 4 { number(h, 4).twips } else { 0 }, hh.half_twips);
                    push_box(&mut t, box_of(w.gradient_scale, hh.gradient_scale, rotation, x, y));
                },
            }
        },
    }
    assert(t@ =~= tail(*task, undefined, h@));
    t
}


/// A call always has an end: its tail is never empty.
proof fn lemma_tail_not_empty<V, E>(task: Task<V>, undefined: V, h: Seq<Result<Reply<V>, E>>)
    ensures
        tail(task, undefined, h).len() > 0,
{
}

/// The next request of a call, given the runtime's answers so far, in order.
pub fn next_request<V: Copy, E: Copy>(
    task: &Task<V>,
    undefined: V,
    answers: &Vec<Result<Reply<V>, E>>,
) -> (r: Request<V, E>)
    ensures
        r == request(*task, undefined, answers@),
{
    match find_error(answers) {
        Some(e) => {
            return Request::Finish(Err(e));
        },
        None => {},
    }
    let mut reads = build_reads(task, undefined, answers);
    if answers.len() < reads.len() {
        return reads.remove(answers.len());
    }
    let mut t = build_tail(task, undefined, answers);
    proof {
        lemma_tail_not_empty(*task, undefined, answers@);
    }
    let k = answers.len() - reads.len();
    if k < t.len() {
        t.remove(k)
    } else {
        t.pop().unwrap()
    }
}


/// The first error is the first failed answer.
proof fn lemma_first_error_at<V, E>(h: Seq<Result<Reply<V>, E>>, i: int, k: int)
    requires
        0 <= i <= k < h.len(),
        h[k] is Err,
        forall|j: int| i <= j < k ==> h[j] is Ok,
    ensures
        first_error_from(h, i) == Some(h[k]->Err_0),
    decreases k - i,
{
    if i < k {
        lemma_first_error_at(h, i + 1, k);
    }
}

/// A call whose answers have all succeeded has no error.
pub(crate) proof fn lemma_no_error<V, E>(h: Seq<Result<Reply<V>, E>>, i: int)
    requires
        0 <= i <= h.len(),
        forall|j: int| i <= j < h.len() ==> h[j] is Ok,
    ensures
        first_error_from(h, i) is None,
    decreases h.len() - i,
{
    if i < h.len() {
        lemma_no_error(h, i + 1);
    }
}

/// The first failure ends the call: once an answer fails, whether to a
/// read, a conversion or a write, the call asks for nothing more and ends
/// with that error, whatever came after it. Nothing is undone.
pub proof fn lemma_first_failure_ends_call<V, E>(
    task: Task<V>,
    undefined: V,
    h: Seq<Result<Reply<V>, E>>,
    k: int,
)
    requires
        0 <= k < h.len(),
        h[k] is Err,
        forall|j: int| 0 <= j < k ==> h[j] is Ok,
    ensures
        request(task, undefined, h) == Request::<V, E>::Finish(Err(h[k]->Err_0)),
{
    lemma_first_error_at(h, 0, k);
}

/// A request that reads or converts, and writes nothing.
pub open spec fn is_read<V, E>(r: Request<V, E>) -> bool {
    r is Number || r is Get || r is Text
}

/// A request that writes a property.
pub open spec fn is_write<V, E>(r: Request<V, E>) -> bool {
    r is SetValue || r is SetComponent
}

/// The reads of a call write nothing.
proof fn lemma_reads_only_read<V, E>(task: Task<V>, undefined: V, h: Seq<Result<Reply<V>, E>>)
    ensures
        forall|i: int|
            0 <= i < reads(task, undefined, h).len() ==> is_read(
                #[trigger] reads(task, undefined, h)[i],
            ),
{
    let r = reads(task, undefined, h);
    assert forall|i: int| 0 <= i < r.len() implies is_read(#[trigger] r[i]) by {
        match task {
            Task::Method(method, args) => {
                let u = undefined;
                match method {
                    MatrixMethod::CreateBox => {
                        let p = seq![
                            number_of_argument::<V, E>(args@, 0, u),
                            number_of_argument::<V, E>(args@, 1, u),
                            number_of_argument::<V, E>(args@, 2, u),
                        ];
                        let q = optional_number::<V, E>(args@, 3);
                        let z = optional_number::<V, E>(args@, 4);
                        if i < p.len() {
                        } else if i < p.len() + q.len() {
                            assert(r[i] == q[i - p.len()]);
                        } else {
                            assert(r[i] == z[i - p.len() - q.len()]);
                        }
                    },
                    MatrixMethod::CreateGradientBox => {
                        let p = seq![
                            number_of_argument::<V, E>(args@, 0, u),
                            number_of_argument::<V, E>(args@, 1, u),
                        ];
                        let q = optional_number::<V, E>(args@, 2);
                        let z = optional_number::<V, E>(args@, 3);
                        let w = optional_number::<V, E>(args@, 4);
                        if i < p.len() {
                        } else if i < p.len() + q.len() {
                            assert(r[i] == q[i - p.len()]);
                        } else if i < p.len() + q.len() + z.len() {
                            assert(r[i] == z[i - p.len() - q.len()]);
                        } else {
                            assert(r[i] == w[i - p.len() - q.len() - z.len()]);
                        }
                    },
                    _ => {},
                }
            },
            _ => {},
        }
    }
}

/// Nothing is written before every read and conversion of the call has
/// succeeded: a call asks for a write only when no answer so far failed
/// and all its reads have been answered.
pub proof fn lemma_writes_follow_reads<V, E>(task: Task<V>, undefined: V, h: Seq<Result<Reply<V>, E>>)
    requires
        is_write(request(task, undefined, h)),
    ensures
        first_error(h) is None,
        h.len() >= reads(task, undefined, h).len(),
{
    lemma_reads_only_read(task, undefined, h);
}

/// The component of a matrix that a property holds.
pub open spec fn component(m: Matrix, f: MatrixField) -> i32 {
    match f {
        MatrixField::A => m.a,
        MatrixField::B => m.b,
        MatrixField::C => m.c,
        MatrixField::D => m.d,
        MatrixField::Tx => m.tx,
        MatrixField::Ty => m.ty,
    }
}

/// A matrix is written `a` first and `ty` last, one property per request,
/// and then the call ends.
pub proof fn lemma_matrix_written_in_order<V, E>(m: Matrix, j: int)
    requires
        0 <= j < 6,
    ensures
        write_then_finish::<V, E>(m).len() == 7,
        write_then_finish::<V, E>(m)[j] == Request::<V, E>::SetComponent(
            field_of(j),
            component(m, field_of(j)),
        ),
        write_then_finish::<V, E>(m)[6] == Request::<V, E>::Finish(Ok(Outcome::Undefined)),
{
}

/// The constructor sets its arguments `a` first, one property per request,
/// and then ends.
pub proof fn lemma_arguments_written_in_order<V, E>(args: Seq<V>, j: int)
    requires
        0 <= j < args.len(),
        j < 6,
    ensures
        argument_writes::<V, E>(args)[j] == Request::<V, E>::SetValue(field_of(j), args[j]),
{
}

/// Once every read of a call has succeeded, the call goes on with its tail:
/// the request after the answers to the reads and to the first `j` writes
/// is the tail's request `j`.
pub proof fn lemma_tail_follows_reads<V, E>(
    task: Task<V>,
    undefined: V,
    h: Seq<Result<Reply<V>, E>>,
)
    requires
        forall|j: int| 0 <= j < h.len() ==> h[j] is Ok,
        reads(task, undefined, h).len() <= h.len() < reads(task, undefined, h).len() + tail(
            task,
            undefined,
            h,
        ).len(),
    ensures
        request(task, undefined, h) == tail(task, undefined, h)[h.len() - reads(
            task,
            undefined,
            h,
        ).len()],
{
    lemma_no_error(h, 0);
}


/// The string of answer `i`.
fn text<V, E>(h: &Vec<Result<Reply<V>, E>>, i: usize) -> (s: String)
    ensures
        s@ == text_at(h@, i as int),
{
    if i < h.len() {
        match &h[i] {
            Ok(Reply::Text(s)) => String::from_str(s.as_str()),
            _ => String::new(),
        }
    } else {
        String::new()
    }
}

/// The text that `toString` gives back: the six strings that its string
/// conversions gave (answers 6 to 11, for `a` to `ty`), as
/// [`to_string`] shows them.
pub fn call_text<V, E>(answers: &Vec<Result<Reply<V>, E>>) -> (s: String)
    ensures
        s@ == matrix_text(
            text_at(answers@, 6),
            text_at(answers@, 7),
            text_at(answers@, 8),
            text_at(answers@, 9),
            text_at(answers@, 10),
            text_at(answers@, 11),
        ),
{
    to_string(
        &MatrixValues {
            a: text(answers, 6),
            b: text(answers, 7),
            c: text(answers, 8),
            d: text(answers, 9),
            tx: text(answers, 10),
            ty: text(answers, 11),
        },
    )
}


/// The object after the writes among `requests`, made in order, the
/// runtime storing `value_of(field, component)` for a matrix component.
pub open spec fn after_writes<V, E>(
    object: MatrixProperties<V>,
    requests: Seq<Request<V, E>>,
    value_of: spec_fn(MatrixField, i32) -> V,
) -> MatrixProperties<V>
    decreases requests.len(),
{
    if requests.len() == 0 {
        object
    } else {
        let next = match requests[0] {
            Request::SetValue(f, v) => object.with(f, v),
            Request::SetComponent(f, c) => object.with(f, value_of(f, c)),
            _ => object,
        };
        after_writes(next, requests.subrange(1, requests.len() as int), value_of)
    }
}

/// The six script values the runtime stores for a matrix.
pub open spec fn values_of_matrix<V>(m: Matrix, value_of: spec_fn(MatrixField, i32) -> V) -> MatrixValues<V> {
    MatrixValues {
        a: value_of(MatrixField::A, m.a),
        b: value_of(MatrixField::B, m.b),
        c: value_of(MatrixField::C, m.c),
        d: value_of(MatrixField::D, m.d),
        tx: value_of(MatrixField::Tx, m.tx),
        ty: value_of(MatrixField::Ty, m.ty),
    }
}

/// The matrix of six script values converted to numbers.
pub open spec fn matrix_of_values<V>(v: MatrixValues<V>, number_of: spec_fn(V) -> Number) -> Matrix {
    Matrix {
        a: number_of(v.a).fixed,
        b: number_of(v.b).fixed,
        c: number_of(v.c).fixed,
        d: number_of(v.d).fixed,
        tx: number_of(v.tx).twips,
        ty: number_of(v.ty).twips,
    }
}

/// Writing a matrix sets all six properties to its values, whatever the
/// object held: the call's writes do what
/// [`apply_matrix_to_object`](crate::object::apply_matrix_to_object) does with
/// those values, and, for the identity, what
/// [`identity`](crate::object::identity) does with the identity's values.
pub proof fn lemma_matrix_writes_set_all<V, E>(
    object: MatrixProperties<V>,
    m: Matrix,
    value_of: spec_fn(MatrixField, i32) -> V,
)
    ensures
        after_writes(object, write_then_finish::<V, E>(m), value_of) == properties_of(
            values_of_matrix(m, value_of),
        ),
{
    reveal_with_fuel(after_writes, 8);
    let w = write_then_finish::<V, E>(m);
    assert(w.subrange(1, 7) =~= w.drop_first());
    assert(w.subrange(1, 7).subrange(1, 6) =~= w.subrange(2, 7));
    assert(w.subrange(2, 7).subrange(1, 5) =~= w.subrange(3, 7));
    assert(w.subrange(3, 7).subrange(1, 4) =~= w.subrange(4, 7));
    assert(w.subrange(4, 7).subrange(1, 3) =~= w.subrange(5, 7));
    assert(w.subrange(5, 7).subrange(1, 2) =~= w.subrange(6, 7));
    assert(w.subrange(6, 7).subrange(1, 1) =~= Seq::<Request<V, E>>::empty());
}


/// Setting the property at position `k` to `args[k]` extends the
/// assignment of the first `k` arguments by one.
proof fn lemma_assign_one_more<V>(object: MatrixProperties<V>, args: Seq<V>, k: int)
    requires
        0 <= k < args.len(),
        k < 6,
    ensures
        constructed_prefix(object, args, k).with(field_of(k), args[k]) == constructed_prefix(
            object,
            args,
            k + 1,
        ),
{
    let a = constructed_prefix(object, args, k).with(field_of(k), args[k]);
    let b = constructed_prefix(object, args, k + 1);
    assert(a.a == b.a);
    assert(a.b == b.b);
    assert(a.c == b.c);
    assert(a.d == b.d);
    assert(a.tx == b.tx);
    assert(a.ty == b.ty);
}

/// The object with its first `k` properties set from the arguments.
pub open spec fn constructed_prefix<V>(object: MatrixProperties<V>, args: Seq<V>, k: int) -> MatrixProperties<V> {
    crate::object::assigned(object, args.take(k))
}

/// The constructor's writes from argument `k` on.
proof fn lemma_argument_writes_from<V, E>(
    object: MatrixProperties<V>,
    args: Seq<V>,
    k: int,
    value_of: spec_fn(MatrixField, i32) -> V,
)
    requires
        0 < args.len(),
        0 <= k <= argument_writes::<V, E>(args).len(),
    ensures
        after_writes(
            constructed_prefix(object, args, k),
            (argument_writes::<V, E>(args) + seq![Request::<V, E>::Finish(Ok(Outcome::Undefined))]).subrange(
                k,
                argument_writes::<V, E>(args).len() + 1int,
            ),
            value_of,
        ) == constructed_prefix(object, args, argument_writes::<V, E>(args).len() as int),
    decreases argument_writes::<V, E>(args).len() - k,
{
    let w = argument_writes::<V, E>(args) + seq![Request::<V, E>::Finish(Ok(Outcome::Undefined))];
    let n = argument_writes::<V, E>(args).len() as int;
    let rest = w.subrange(k, n + 1);
    if k == n {
        assert(rest.subrange(1, rest.len() as int) =~= Seq::<Request<V, E>>::empty());
        reveal_with_fuel(after_writes, 2);
    } else {
        assert(rest[0] == Request::<V, E>::SetValue(field_of(k), args[k]));
        lemma_assign_one_more(object, args, k);
        assert(rest.subrange(1, rest.len() as int) =~= w.subrange(k + 1, n + 1));
        lemma_argument_writes_from::<V, E>(object, args, k + 1, value_of);
    }
}

/// The constructor call's writes do what
/// [`constructor`](crate::object::constructor) does, with the values the
/// runtime stores for the identity matrix as the identity: without
/// arguments the object holds the identity; otherwise the first six
/// arguments are set, `a` first, and the other properties stay.
pub proof fn lemma_constructor_call<V, E>(
    object: MatrixProperties<V>,
    args: Vec<V>,
    undefined: V,
    h: Seq<Result<Reply<V>, E>>,
    value_of: spec_fn(MatrixField, i32) -> V,
)
    ensures
        after_writes(object, tail(Task::Construct(args), undefined, h), value_of) == constructed(
            object,
            args@,
            values_of_matrix(identity_matrix(), value_of),
        ),
{
    if args@.len() == 0 {
        lemma_matrix_writes_set_all::<V, E>(object, identity_matrix(), value_of);
    } else {
        let n = argument_writes::<V, E>(args@).len() as int;
        assert(args@.take(0) =~= Seq::<V>::empty());
        assert(crate::object::assigned(object, Seq::<V>::empty()) == object);
        let w = argument_writes::<V, E>(args@) + seq![Request::<V, E>::Finish(Ok(Outcome::Undefined))];
        assert(w.subrange(0, n + 1) =~= w);
        lemma_argument_writes_from::<V, E>(object, args@, 0, value_of);
        let full = constructed_prefix(object, args@, n);
        let want = crate::object::assigned(object, args@);
        assert(full.a == want.a);
        assert(full.b == want.b);
        assert(full.c == want.c);
        assert(full.d == want.d);
        assert(full.tx == want.tx);
        assert(full.ty == want.ty);
    }
}


/// The clone call, when its six reads give what reading `object` gives,
/// ends with the values that [`clone`](crate::object::clone) constructs
/// its copy from.
pub proof fn lemma_clone_call<V, E>(
    object: MatrixProperties<V>,
    args: Vec<V>,
    undefined: V,
    h: Seq<Result<Reply<V>, E>>,
)
    requires
        h.len() >= 6,
        forall|i: int| 0 <= i < 6 ==> h[i] == Ok::<Reply<V>, E>(Reply::Value(object.read(field_of(i), undefined))),
    ensures
        tail(Task::Method(MatrixMethod::Clone, args), undefined, h) == seq![
            Request::<V, E>::Finish(Ok(Outcome::Construct(values_of(object, undefined)))),
        ],
{
    assert(h[0] == Ok::<Reply<V>, E>(Reply::Value(object.read(field_of(0), undefined))));
    assert(h[1] == Ok::<Reply<V>, E>(Reply::Value(object.read(field_of(1), undefined))));
    assert(h[2] == Ok::<Reply<V>, E>(Reply::Value(object.read(field_of(2), undefined))));
    assert(h[3] == Ok::<Reply<V>, E>(Reply::Value(object.read(field_of(3), undefined))));
    assert(h[4] == Ok::<Reply<V>, E>(Reply::Value(object.read(field_of(4), undefined))));
    assert(h[5] == Ok::<Reply<V>, E>(Reply::Value(object.read(field_of(5), undefined))));
}

/// The call that reads a matrix, when its six conversions give the numbers
/// of what reading `object` gives, ends with the matrix of the values that
/// [`object_to_matrix`](crate::object::object_to_matrix) reads.
pub proof fn lemma_read_matrix_call<V, E>(
    object: MatrixProperties<V>,
    undefined: V,
    h: Seq<Result<Reply<V>, E>>,
    number_of: spec_fn(V) -> Number,
)
    requires
        h.len() >= 6,
        forall|i: int|
            0 <= i < 6 ==> h[i] == Ok::<Reply<V>, E>(
                Reply::Number(number_of(object.read(field_of(i), undefined))),
            ),
    ensures
        tail(Task::ReadMatrix, undefined, h) == seq![
            Request::<V, E>::Finish(
                Ok(Outcome::Matrix(matrix_of_values(values_of(object, undefined), number_of))),
            ),
        ],
{
    assert(h[0] == Ok::<Reply<V>, E>(Reply::Number(number_of(object.read(field_of(0), undefined)))));
    assert(h[1] == Ok::<Reply<V>, E>(Reply::Number(number_of(object.read(field_of(1), undefined)))));
    assert(h[2] == Ok::<Reply<V>, E>(Reply::Number(number_of(object.read(field_of(2), undefined)))));
    assert(h[3] == Ok::<Reply<V>, E>(Reply::Number(number_of(object.read(field_of(3), undefined)))));
    assert(h[4] == Ok::<Reply<V>, E>(Reply::Number(number_of(object.read(field_of(4), undefined)))));
    assert(h[5] == Ok::<Reply<V>, E>(Reply::Number(number_of(object.read(field_of(5), undefined)))));
}

/// The call that reads a gradient description, when its conversions give
/// the numbers of what reading the description gives, ends with the matrix
/// of the operands that
/// [`gradient_object_to_matrix`](crate::arguments::gradient_object_to_matrix)
/// picks: the gradient box of `w`, `h`, `r`, `x`, `y` where `matrixType` is
/// `"box"`, the matrix of the six matrix properties otherwise.
pub proof fn lemma_read_gradient_call<V, E>(
    object: GradientProperties<V>,
    undefined: V,
    h: Seq<Result<Reply<V>, E>>,
    number_of: spec_fn(V) -> Number,
)
    requires
        h.len() >= 7,
        h[0] is Ok,
        text_at(h, 0) == box_type() ==> {
            &&& h[1] == Ok::<Reply<V>, E>(Reply::Number(number_of(read_slot(object.w, undefined))))
            &&& h[2] == Ok::<Reply<V>, E>(Reply::Number(number_of(read_slot(object.h, undefined))))
            &&& h[3] == Ok::<Reply<V>, E>(Reply::Number(number_of(read_slot(object.r, undefined))))
            &&& h[4] == Ok::<Reply<V>, E>(Reply::Number(number_of(read_slot(object.x, undefined))))
            &&& h[5] == Ok::<Reply<V>, E>(Reply::Number(number_of(read_slot(object.y, undefined))))
        },
        text_at(h, 0) != box_type() ==> forall|i: int|
            0 <= i < 6 ==> h[i + 1] == Ok::<Reply<V>, E>(
                Reply::Number(number_of(object.matrix.read(field_of(i), undefined))),
            ),
    ensures
        text_at(h, 0) == box_type() ==> tail(Task::ReadGradient, undefined, h) == match gradient_box(
            number_of(read_slot(object.w, undefined)),
            number_of(read_slot(object.h, undefined)),
            number_of(read_slot(object.r, undefined)).rotation,
            number_of(read_slot(object.x, undefined)).twips as int,
            number_of(read_slot(object.y, undefined)).twips as int,
        ) {
            Some(m) => seq![Request::<V, E>::Finish(Ok(Outcome::Matrix(m)))],
            None => seq![Request::<V, E>::Overflow],
        },
        text_at(h, 0) != box_type() ==> tail(Task::ReadGradient, undefined, h) == seq![
            Request::<V, E>::Finish(
                Ok(Outcome::Matrix(matrix_of_values(values_of(object.matrix, undefined), number_of))),
            ),
        ],
{
    if text_at(h, 0) != box_type() {
        assert(h[1] == Ok::<Reply<V>, E>(Reply::Number(number_of(object.matrix.read(field_of(0), undefined)))));
        assert(h[2] == Ok::<Reply<V>, E>(Reply::Number(number_of(object.matrix.read(field_of(1), undefined)))));
        assert(h[3] == Ok::<Reply<V>, E>(Reply::Number(number_of(object.matrix.read(field_of(2), undefined)))));
        assert(h[4] == Ok::<Reply<V>, E>(Reply::Number(number_of(object.matrix.read(field_of(3), undefined)))));
        assert(h[5] == Ok::<Reply<V>, E>(Reply::Number(number_of(object.matrix.read(field_of(4), undefined)))));
        assert(h[6] == Ok::<Reply<V>, E>(Reply::Number(number_of(object.matrix.read(field_of(5), undefined)))));
    }
}

/// What writing a box does: all six properties set where it computes,
/// nothing written where it overflows.
proof fn lemma_box_writes<V, E>(
    object: MatrixProperties<V>,
    b: Option<Matrix>,
    value_of: spec_fn(MatrixField, i32) -> V,
)
    ensures
        after_writes(object, write_box::<V, E>(b), value_of) == match b {
            Some(m) => properties_of(values_of_matrix(m, value_of)),
            None => object,
        },
{
    match b {
        Some(m) => lemma_matrix_writes_set_all::<V, E>(object, m, value_of),
        None => {
            reveal_with_fuel(after_writes, 2);
            assert(seq![Request::<V, E>::Overflow].subrange(1, 1) =~= Seq::<Request<V, E>>::empty());
        },
    }
}

/// `createGradientBox` reads nothing of the object it is called on: it
/// converts only its arguments (or `undefined`). So two calls with the same
/// arguments and the same answers leave any two objects holding the same
/// six properties, whatever they held before, and a second such call on
/// the same object changes nothing.
pub proof fn lemma_gradient_box_ignores_object<V, E>(
    args: Vec<V>,
    undefined: V,
    h: Seq<Result<Reply<V>, E>>,
    first: MatrixProperties<V>,
    second: MatrixProperties<V>,
    value_of: spec_fn(MatrixField, i32) -> V,
)
    ensures
        forall|i: int|
            0 <= i < reads(Task::Method(MatrixMethod::CreateGradientBox, args), undefined, h).len()
                ==> #[trigger] reads(
                Task::Method(MatrixMethod::CreateGradientBox, args),
                undefined,
                h,
            )[i] is Number && reads(
                Task::Method(MatrixMethod::CreateGradientBox, args),
                undefined,
                h,
            )[i]->Number_0 is Value,
        ({
            let t = tail(Task::Method(MatrixMethod::CreateGradientBox, args), undefined, h);
            &&& t[t.len() - 1] is Finish ==> after_writes(first, t, value_of) == after_writes(
                second,
                t,
                value_of,
            )
            &&& after_writes(after_writes(first, t, value_of), t, value_of) == after_writes(
                first,
                t,
                value_of,
            )
        }),
{
    let task = Task::Method(MatrixMethod::CreateGradientBox, args);
    let r = reads(task, undefined, h);
    let u = undefined;
    assert forall|i: int| 0 <= i < r.len() implies #[trigger] r[i] is Number && r[i]->Number_0 is Value by {
        let p = seq![number_of_argument::<V, E>(args@, 0, u), number_of_argument::<V, E>(args@, 1, u)];
        let q = optional_number::<V, E>(args@, 2);
        let z = optional_number::<V, E>(args@, 3);
        let w = optional_number::<V, E>(args@, 4);
        if i < p.len() {
        } else if i < p.len() + q.len() {
            assert(r[i] == q[i - p.len()]);
        } else if i < p.len() + q.len() + z.len() {
            assert(r[i] == z[i - p.len() - q.len()]);
        } else {
            assert(r[i] == w[i - p.len() - q.len() - z.len()]);
        }
    }
    let n = args.len();
    let b = gradient_box(
        number_at(h, 0),
        number_at(h, 1),
        if n > 2 { number_at(h, 2).rotation } else { identity_matrix() },
        if n > 3 { number_at(h, 3).twips as int } else { 0 },
        if n > 4 { number_at(h, 4).twips as int } else { 0 },
    );
    lemma_box_writes::<V, E>(first, b, value_of);
    lemma_box_writes::<V, E>(second, b, value_of);
    lemma_box_writes::<V, E>(after_writes(first, write_box::<V, E>(b), value_of), b, value_of);
}

/// `toString` writes nothing: whatever the answers, it never asks for a
/// write.
pub proof fn lemma_to_string_writes_nothing<V, E>(args: Vec<V>, undefined: V, h: Seq<Result<Reply<V>, E>>)
    ensures
        !is_write(request(Task::Method(MatrixMethod::ToString, args), undefined, h)),
{
    lemma_reads_only_read(Task::Method(MatrixMethod::ToString, args), undefined, h);
}

/// `concat` with the scale matrix of the numbers `sx`, `sy` writes what
/// `scale(sx, sy)` writes, and `concat` with the move matrix of `dx`, `dy`
/// writes what `translate(dx, dy)` writes, given the same matrix of the
/// object.
pub proof fn lemma_concat_call_as_scale_or_translate<V, E>(
    args: Vec<V>,
    undefined: V,
    on_concat: Seq<Result<Reply<V>, E>>,
    on_other: Seq<Result<Reply<V>, E>>,
)
    requires
        matrix_at(on_concat, 0) == matrix_at(on_other, 2),
    ensures
        matrix_at(on_concat, 6) == scale_matrix(number_at(on_other, 0).fixed, number_at(on_other, 1).fixed)
            ==> tail(Task::Method(MatrixMethod::Concat, args), undefined, on_concat) == tail(
            Task::Method(MatrixMethod::Scale, args),
            undefined,
            on_other,
        ),
        matrix_at(on_concat, 6) == translate_matrix(number_at(on_other, 0).twips, number_at(on_other, 1).twips)
            ==> tail(Task::Method(MatrixMethod::Concat, args), undefined, on_concat) == tail(
            Task::Method(MatrixMethod::Translate, args),
            undefined,
            on_other,
        ),
{
}

} // verus!
