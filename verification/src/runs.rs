//! Calls answered by a runtime that answers every request truly, from the
//! objects it holds: what each method then reads, computes and writes,
//! stated in terms of those objects, the arguments and the matrix
//! arithmetic.
use crate::arguments::{argument_or, box_type, read_slot, GradientProperties};
use crate::call::{
    first_error, lemma_no_error, lemma_tail_follows_reads, matrix_at, number_at,
    number_of_argument, optional_number, reads, request, tail, text_at, value_at, Number, Outcome,
    Property, Reply, Request, Source, Task,
};
use crate::matrix::{
    identity_matrix, product, product_defined, scale_matrix, swf_inverse, translate_matrix, Matrix,
};
use crate::object::{field_of, matrix_text, MatrixField, MatrixProperties, MatrixValues};
use crate::proto::MatrixMethod;
use vstd::prelude::*;

verus! {

/// A runtime's view of the world: the object a call is made on, the object
/// each value converts to, and how values convert to numbers and strings.
#[verifier::reject_recursive_types(V)]
pub struct World<V> {
    /// The object the call is made on: its six matrix properties, and the
    /// properties `w`, `h`, `r`, `x` and `y` that a gradient description
    /// has.
    pub this: GradientProperties<V>,
    /// Its `matrixType`, where it has one.
    pub matrix_type: Option<V>,
    /// The value `undefined`, which reading a missing property gives.
    pub undefined: V,
    /// The object that a value converts to.
    pub object_of: spec_fn(V) -> MatrixProperties<V>,
    /// The number that a value converts to.
    pub number_of: spec_fn(V) -> Number,
    /// The string that a value converts to.
    pub text_of: spec_fn(V) -> String,
}

/// What reading a property of the object the call is made on gives.
pub open spec fn property_value<V>(w: World<V>, p: Property) -> V {
    match p {
        Property::Field(f) => w.this.matrix.read(f, w.undefined),
        Property::MatrixType => read_slot(w.matrix_type, w.undefined),
        Property::W => read_slot(w.this.w, w.undefined),
        Property::H => read_slot(w.this.h, w.undefined),
        Property::R => read_slot(w.this.r, w.undefined),
        Property::X => read_slot(w.this.x, w.undefined),
        Property::Y => read_slot(w.this.y, w.undefined),
    }
}

/// The value that a conversion converts: the value itself, or what reading
/// the property gives.
pub open spec fn source_value<V>(w: World<V>, s: Source<V>) -> V {
    match s {
        Source::Value(v) => v,
        Source::This(p) => property_value(w, p),
        Source::Argument(v, f) => ((w.object_of)(v)).read(f, w.undefined),
    }
}

/// How such a runtime answers a request: a conversion with the number or
/// the string of the value, a read with the property's value, a write with
/// success.
pub open spec fn true_answer<V, E>(w: World<V>, r: Request<V, E>) -> Result<Reply<V>, E> {
    match r {
        Request::Number(s) => Ok(Reply::Number((w.number_of)(source_value(w, s)))),
        Request::Get(f) => Ok(Reply::Value(w.this.matrix.read(f, w.undefined))),
        Request::Text(s) => Ok(Reply::Text((w.text_of)(source_value(w, s)))),
        _ => Ok(Reply::Done),
    }
}

/// Every answer of `h` is the runtime's true answer to the request the call
/// made at that point.
pub open spec fn answered_truly<V, E>(task: Task<V>, w: World<V>, h: Seq<Result<Reply<V>, E>>) -> bool {
    forall|i: int|
        0 <= i < h.len() ==> #[trigger] h[i] == true_answer(w, request(task, w.undefined, h.take(i)))
}

/// The number the runtime gives for property `f` of `o`.
pub open spec fn number_in<V>(w: World<V>, o: MatrixProperties<V>, f: MatrixField) -> Number {
    (w.number_of)(o.read(f, w.undefined))
}

/// The matrix of the six properties of `o`, as numbers: fixed point for
/// `a` to `d`, twips for `tx` and `ty`.
pub open spec fn matrix_in<V>(w: World<V>, o: MatrixProperties<V>) -> Matrix {
    Matrix {
        a: number_in(w, o, MatrixField::A).fixed,
        b: number_in(w, o, MatrixField::B).fixed,
        c: number_in(w, o, MatrixField::C).fixed,
        d: number_in(w, o, MatrixField::D).fixed,
        tx: number_in(w, o, MatrixField::Tx).twips,
        ty: number_in(w, o, MatrixField::Ty).twips,
    }
}

/// The write of component `j` of `m` (`a` to `ty`), or after the six, the
/// end of the call.
pub open spec fn write_of<V, E>(m: Matrix, j: int) -> Request<V, E> {
    if j == 0 {
        Request::SetComponent(MatrixField::A, m.a)
    } else if j == 1 {
        Request::SetComponent(MatrixField::B, m.b)
    } else if j == 2 {
        Request::SetComponent(MatrixField::C, m.c)
    } else if j == 3 {
        Request::SetComponent(MatrixField::D, m.d)
    } else if j == 4 {
        Request::SetComponent(MatrixField::Tx, m.tx)
    } else if j == 5 {
        Request::SetComponent(MatrixField::Ty, m.ty)
    } else {
        Request::Finish(Ok(Outcome::Undefined))
    }
}

/// Every true answer succeeds.
proof fn lemma_true_answers_succeed<V, E>(task: Task<V>, w: World<V>, h: Seq<Result<Reply<V>, E>>)
    requires
        answered_truly(task, w, h),
    ensures
        forall|i: int| 0 <= i < h.len() ==> h[i] is Ok,
        forall|n: int| 0 <= n <= h.len() ==> #[trigger] first_error(h.take(n)) is None,
{
    assert forall|i: int| 0 <= i < h.len() implies h[i] is Ok by {
        assert(h[i] == true_answer(w, request(task, w.undefined, h.take(i))));
    }
    assert forall|n: int| 0 <= n <= h.len() implies #[trigger] first_error(h.take(n)) is None by {
        lemma_no_error(h.take(n), 0);
    }
}

/// Answer `i` is the true answer to the call's read `i`.
proof fn lemma_answer_to_read<V, E>(task: Task<V>, w: World<V>, h: Seq<Result<Reply<V>, E>>, i: int)
    requires
        answered_truly(task, w, h),
        0 <= i < h.len(),
        i < reads(task, w.undefined, h.take(i)).len(),
    ensures
        h[i] == true_answer(w, reads(task, w.undefined, h.take(i))[i]),
{
    lemma_true_answers_succeed(task, w, h);
    assert(first_error(h.take(i)) is None);
    assert(h.take(i).len() == i);
    assert(h[i] == true_answer(w, request(task, w.undefined, h.take(i))));
}

/// `concat(other)` on a runtime that answers truly: the object's matrix
/// becomes the matrix of `other` (read `a` to `ty` from the object that
/// `other` converts to) times the object's own, so that the object's
/// transformation applies first; the six components are written `a` to
/// `ty`, then the call ends. Where the product overflows, nothing is
/// written.
#[verifier::rlimit(80)]
pub proof fn lemma_concat_run<V, E>(args: Vec<V>, w: World<V>, h: Seq<Result<Reply<V>, E>>)
    requires
        answered_truly(Task::Method(MatrixMethod::Concat, args), w, h),
        h.len() >= 12,
    ensures
        ({
            let other = (w.object_of)(argument_or(args@, 0, w.undefined));
            let lhs = matrix_in(w, other);
            let rhs = matrix_in(w, w.this.matrix);
            let r = request(Task::Method(MatrixMethod::Concat, args), w.undefined, h);
            &&& product_defined(lhs, rhs) ==> r == write_of::<V, E>(product(lhs, rhs), h.len() - 12)
            &&& !product_defined(lhs, rhs) ==> r == Request::<V, E>::Overflow
        }),
{
    let task = Task::Method(MatrixMethod::Concat, args);
    let u = w.undefined;
    let other = (w.object_of)(argument_or(args@, 0, u));
    lemma_true_answers_succeed(task, w, h);
    assert forall|i: int| 0 <= i < 12 implies #[trigger] number_at(h, i) == if i < 6 {
        number_in(w, w.this.matrix, field_of(i))
    } else {
        number_in(w, other, field_of(i - 6))
    } by {
        lemma_answer_to_read(task, w, h, i);
    }
    assert(number_at(h, 0) == number_in(w, w.this.matrix, field_of(0)));
    assert(number_at(h, 1) == number_in(w, w.this.matrix, field_of(1)));
    assert(number_at(h, 2) == number_in(w, w.this.matrix, field_of(2)));
    assert(number_at(h, 3) == number_in(w, w.this.matrix, field_of(3)));
    assert(number_at(h, 4) == number_in(w, w.this.matrix, field_of(4)));
    assert(number_at(h, 5) == number_in(w, w.this.matrix, field_of(5)));
    assert(number_at(h, 6) == number_in(w, other, field_of(0)));
    assert(number_at(h, 7) == number_in(w, other, field_of(1)));
    assert(number_at(h, 8) == number_in(w, other, field_of(2)));
    assert(number_at(h, 9) == number_in(w, other, field_of(3)));
    assert(number_at(h, 10) == number_in(w, other, field_of(4)));
    assert(number_at(h, 11) == number_in(w, other, field_of(5)));
    let t = tail(task, u, h);
    if h.len() < 12 + t.len() {
        lemma_tail_follows_reads(task, u, h);
    } else {
        lemma_no_error(h, 0);
    }
}

/// The number the runtime gives for argument `i` of `args` (or for
/// `undefined`, where the call has fewer arguments).
pub open spec fn argument_number<V>(w: World<V>, args: Seq<V>, i: int) -> Number {
    (w.number_of)(argument_or(args, i, w.undefined))
}

/// The move of argument `i` in twips, or none where the call has fewer
/// arguments.
pub open spec fn optional_move<V>(w: World<V>, args: Seq<V>, i: int) -> int {
    if i < args.len() {
        argument_number(w, args, i).twips as int
    } else {
        0
    }
}

/// How many conversions a call makes that converts its first `required`
/// arguments and those of the next, up to argument 4, that it has.
pub open spec fn conversions(required: int, n: int) -> int {
    if n <= required {
        required
    } else if n >= 5 {
        5
    } else {
        n
    }
}

/// The answers of a `createBox` call on a runtime that answers truly are
/// the numbers of its arguments, in order.
#[verifier::rlimit(80)]
proof fn lemma_box_numbers<V, E>(args: Vec<V>, w: World<V>, h: Seq<Result<Reply<V>, E>>)
    requires
        answered_truly(Task::Method(MatrixMethod::CreateBox, args), w, h),
        h.len() >= conversions(3, args.len() as int),
    ensures
        reads(Task::Method(MatrixMethod::CreateBox, args), w.undefined, h).len() == conversions(
            3,
            args.len() as int,
        ),
        forall|i: int|
            0 <= i < conversions(3, args.len() as int) ==> #[trigger] number_at(h, i)
                == argument_number(w, args@, i),
{
    let task = Task::Method(MatrixMethod::CreateBox, args);
    let u = w.undefined;
    let a = args@;
    let k = conversions(3, a.len() as int);
    lemma_true_answers_succeed(task, w, h);
    assert(reads(task, u, h).len() == k);
    assert forall|i: int| 0 <= i < k implies #[trigger] number_at(h, i) == argument_number(w, a, i) by {
        lemma_answer_to_read(task, w, h, i);
        assert(reads(task, u, h.take(i)) == reads(task, u, h));
        let p = seq![
            number_of_argument::<V, E>(a, 0, u),
            number_of_argument::<V, E>(a, 1, u),
            number_of_argument::<V, E>(a, 2, u),
        ];
        let q = optional_number::<V, E>(a, 3);
        let z = optional_number::<V, E>(a, 4);
        let r = reads(task, u, h);
        if i < p.len() {
        } else if i < p.len() + q.len() {
            assert(r[i] == q[i - p.len()]);
        } else {
            assert(r[i] == z[i - p.len() - q.len()]);
        }
    }
}

/// `createBox(scaleX, scaleY, rotation, tx, ty)` on a runtime that
/// answers truly: the object's matrix becomes the scale by the first two
/// numbers, then the rotation by the angle of the third, then the move by
/// the last two (by nothing where they are missing); the six components are
/// written `a` to `ty`, then the call ends. Where the fixed-point product
/// of rotation and scale overflows, nothing is written.
#[verifier::rlimit(80)]
pub proof fn lemma_create_box_run<V, E>(args: Vec<V>, w: World<V>, h: Seq<Result<Reply<V>, E>>)
    requires
        answered_truly(Task::Method(MatrixMethod::CreateBox, args), w, h),
        h.len() >= conversions(3, args.len() as int),
    ensures
        ({
            let a = args@;
            let scale_x = argument_number(w, a, 0).fixed;
            let scale_y = argument_number(w, a, 1).fixed;
            let rotation = argument_number(w, a, 2).rotation;
            let x = optional_move(w, a, 3);
            let y = optional_move(w, a, 4);
            let k = conversions(3, a.len() as int);
            let r = request(Task::Method(MatrixMethod::CreateBox, args), w.undefined, h);
            let rotated = product(rotation, scale_matrix(scale_x, scale_y));
            &&& product_defined(rotation, scale_matrix(scale_x, scale_y)) ==> r == write_of::<V, E>(
                product(translate_matrix(x as i32, y as i32), rotated),
                h.len() - k,
            )
            &&& !product_defined(rotation, scale_matrix(scale_x, scale_y)) ==> r
                == Request::<V, E>::Overflow
        }),
{
    let task = Task::Method(MatrixMethod::CreateBox, args);
    let u = w.undefined;
    let a = args@;
    let k = conversions(3, a.len() as int);
    lemma_box_numbers(args, w, h);
    lemma_true_answers_succeed(task, w, h);
    if a.len() > 3 {
        assert(number_at(h, 3) == argument_number(w, a, 3));
    }
    if a.len() > 4 {
        assert(number_at(h, 4) == argument_number(w, a, 4));
    }
    assert(number_at(h, 0) == argument_number(w, a, 0));
    assert(number_at(h, 1) == argument_number(w, a, 1));
    assert(number_at(h, 2) == argument_number(w, a, 2));
    let t = tail(task, u, h);
    if h.len() < k + t.len() {
        lemma_tail_follows_reads(task, u, h);
    } else {
        lemma_no_error(h, 0);
    }
}

/// The answers of a `createGradientBox` call on a runtime that answers
/// truly are the numbers of its arguments, in order.
#[verifier::rlimit(80)]
proof fn lemma_gradient_box_numbers<V, E>(args: Vec<V>, w: World<V>, h: Seq<Result<Reply<V>, E>>)
    requires
        answered_truly(Task::Method(MatrixMethod::CreateGradientBox, args), w, h),
        h.len() >= conversions(2, args.len() as int),
    ensures
        reads(Task::Method(MatrixMethod::CreateGradientBox, args), w.undefined, h).len()
            == conversions(2, args.len() as int),
        forall|i: int|
            0 <= i < conversions(2, args.len() as int) ==> #[trigger] number_at(h, i)
                == argument_number(w, args@, i),
{
    let task = Task::Method(MatrixMethod::CreateGradientBox, args);
    let u = w.undefined;
    let a = args@;
    let k = conversions(2, a.len() as int);
    lemma_true_answers_succeed(task, w, h);
    assert(reads(task, u, h).len() == k);
    assert forall|i: int| 0 <= i < k implies #[trigger] number_at(h, i) == argument_number(w, a, i) by {
        lemma_answer_to_read(task, w, h, i);
        assert(reads(task, u, h.take(i)) == reads(task, u, h));
        let p = seq![number_of_argument::<V, E>(a, 0, u), number_of_argument::<V, E>(a, 1, u)];
        let q = optional_number::<V, E>(a, 2);
        let z = optional_number::<V, E>(a, 3);
        let v = optional_number::<V, E>(a, 4);
        let r = reads(task, u, h);
        if i < p.len() {
        } else if i < p.len() + q.len() {
            assert(r[i] == q[i - p.len()]);
        } else if i < p.len() + q.len() + z.len() {
            assert(r[i] == z[i - p.len() - q.len()]);
        } else {
            assert(r[i] == v[i - p.len() - q.len() - z.len()]);
        }
    }
}

/// `createGradientBox(width, height, rotation, tx, ty)` on a runtime that
/// answers truly: the object's matrix becomes the scale by the gradient
/// scales of width and height (the size over 1638.4), then the rotation by
/// the angle of the third argument (none where it is missing), then the
/// move by `tx` plus half the width and `ty` plus half the height (a
/// missing `tx` or `ty` counting as 0); the six components are written `a`
/// to `ty`, then the call ends. Where the fixed-point product overflows or
/// a move leaves the range of twips, nothing is written.
#[verifier::rlimit(80)]
pub proof fn lemma_create_gradient_box_run<V, E>(
    args: Vec<V>,
    w: World<V>,
    h: Seq<Result<Reply<V>, E>>,
)
    requires
        answered_truly(Task::Method(MatrixMethod::CreateGradientBox, args), w, h),
        h.len() >= conversions(2, args.len() as int),
    ensures
        ({
            let a = args@;
            let width = argument_number(w, a, 0);
            let height = argument_number(w, a, 1);
            let rotation = if a.len() > 2 {
                argument_number(w, a, 2).rotation
            } else {
                identity_matrix()
            };
            let scale = scale_matrix(width.gradient_scale, height.gradient_scale);
            let x = optional_move(w, a, 3) + width.half_twips;
            let y = optional_move(w, a, 4) + height.half_twips;
            let fits = i32::MIN <= x <= i32::MAX && i32::MIN <= y <= i32::MAX;
            let k = conversions(2, a.len() as int);
            let r = request(Task::Method(MatrixMethod::CreateGradientBox, args), w.undefined, h);
            &&& product_defined(rotation, scale) && fits ==> r == write_of::<V, E>(
                product(translate_matrix(x as i32, y as i32), product(rotation, scale)),
                h.len() - k,
            )
            &&& !(product_defined(rotation, scale) && fits) ==> r == Request::<V, E>::Overflow
        }),
{
    let task = Task::Method(MatrixMethod::CreateGradientBox, args);
    let u = w.undefined;
    let a = args@;
    let k = conversions(2, a.len() as int);
    lemma_gradient_box_numbers(args, w, h);
    lemma_true_answers_succeed(task, w, h);
    if a.len() > 2 {
        assert(number_at(h, 2) == argument_number(w, a, 2));
    }
    if a.len() > 3 {
        assert(number_at(h, 3) == argument_number(w, a, 3));
    }
    if a.len() > 4 {
        assert(number_at(h, 4) == argument_number(w, a, 4));
    }
    assert(number_at(h, 0) == argument_number(w, a, 0));
    assert(number_at(h, 1) == argument_number(w, a, 1));
    let t = tail(task, u, h);
    if h.len() < k + t.len() {
        lemma_tail_follows_reads(task, u, h);
    } else {
        lemma_no_error(h, 0);
    }
}

/// The string the runtime gives for property `f` of the object the call is
/// made on.
pub open spec fn shown<V>(w: World<V>, f: MatrixField) -> Seq<char> {
    (w.text_of)(w.this.matrix.read(f, w.undefined))@
}

/// `toString()` on a runtime that answers truly: the call reads the six
/// properties and converts each value read to a string, `a` to `ty`, then
/// ends with the text, which [`call_text`](crate::call::call_text) makes
/// from the answers: `(a=…, b=…, c=…, d=…, tx=…, ty=…)` with the string of
/// each property after its own name.
#[verifier::rlimit(80)]
pub proof fn lemma_to_string_run<V, E>(args: Vec<V>, w: World<V>, h: Seq<Result<Reply<V>, E>>)
    requires
        answered_truly(Task::Method(MatrixMethod::ToString, args), w, h),
        h.len() >= 12,
    ensures
        request(Task::Method(MatrixMethod::ToString, args), w.undefined, h) == Request::<V, E>::Finish(
            Ok(Outcome::Text),
        ),
        forall|j: int| 0 <= j < 6 ==> #[trigger] text_at(h, 6 + j) == shown(w, field_of(j)),
        matrix_text(
            text_at(h, 6),
            text_at(h, 7),
            text_at(h, 8),
            text_at(h, 9),
            text_at(h, 10),
            text_at(h, 11),
        ) == "(a="@ + shown(w, MatrixField::A) + ", b="@ + shown(w, MatrixField::B) + ", c="@ + shown(
            w,
            MatrixField::C,
        ) + ", d="@ + shown(w, MatrixField::D) + ", tx="@ + shown(w, MatrixField::Tx) + ", ty="@
            + shown(w, MatrixField::Ty) + ")"@,
{
    let task = Task::Method(MatrixMethod::ToString, args);
    let u = w.undefined;
    lemma_true_answers_succeed(task, w, h);
    assert forall|j: int| 0 <= j < 6 implies #[trigger] value_at(h, j, u) == w.this.matrix.read(field_of(j), u) by {
        lemma_answer_to_read(task, w, h, j);
    }
    assert forall|j: int| 0 <= j < 6 implies #[trigger] text_at(h, 6 + j) == shown(w, field_of(j)) by {
        lemma_answer_to_read(task, w, h, 6 + j);
        assert(value_at(h.take(6 + j), j, u) == value_at(h, j, u));
    }
    assert(text_at(h, 6 + 0int) == shown(w, field_of(0)));
    assert(text_at(h, 6 + 1int) == shown(w, field_of(1)));
    assert(text_at(h, 6 + 2int) == shown(w, field_of(2)));
    assert(text_at(h, 6 + 3int) == shown(w, field_of(3)));
    assert(text_at(h, 6 + 4int) == shown(w, field_of(4)));
    assert(text_at(h, 6 + 5int) == shown(w, field_of(5)));
    let t = tail(task, u, h);
    if h.len() < 12 + t.len() {
        lemma_tail_follows_reads(task, u, h);
    } else {
        lemma_no_error(h, 0);
    }
}


/// The answers of a call that converts `operands` arguments, then the six
/// properties of the object it is made on, are the numbers of those
/// arguments and of those properties, in order.
#[verifier::rlimit(80)]
proof fn lemma_operands_then_matrix<V, E>(
    method: MatrixMethod,
    args: Vec<V>,
    w: World<V>,
    h: Seq<Result<Reply<V>, E>>,
    operands: int,
)
    requires
        answered_truly(Task::Method(method, args), w, h),
        method == MatrixMethod::Scale || method == MatrixMethod::Translate ==> operands == 2,
        method == MatrixMethod::Rotate ==> operands == 1,
        method == MatrixMethod::Invert ==> operands == 0,
        method == MatrixMethod::Scale || method == MatrixMethod::Translate || method
            == MatrixMethod::Rotate || method == MatrixMethod::Invert,
        h.len() >= operands + 6,
    ensures
        reads(Task::Method(method, args), w.undefined, h).len() == operands + 6,
        forall|i: int| 0 <= i < operands ==> #[trigger] number_at(h, i) == argument_number(w, args@, i),
        forall|i: int|
            0 <= i < 6 ==> #[trigger] number_at(h, operands + i) == number_in(
                w,
                w.this.matrix,
                field_of(i),
            ),
{
    let task = Task::Method(method, args);
    let u = w.undefined;
    lemma_true_answers_succeed(task, w, h);
    assert forall|i: int| 0 <= i < operands implies #[trigger] number_at(h, i) == argument_number(w, args@, i) by {
        lemma_answer_to_read(task, w, h, i);
    }
    assert forall|i: int| 0 <= i < 6 implies #[trigger] number_at(h, operands + i) == number_in(
        w,
        w.this.matrix,
        field_of(i),
    ) by {
        lemma_answer_to_read(task, w, h, operands + i);
    }
}

/// The six numbers from answer `p` on, given as those of the properties of
/// the object the call is made on, make its matrix.
proof fn lemma_matrix_answered<V, E>(w: World<V>, h: Seq<Result<Reply<V>, E>>, p: int)
    requires
        forall|i: int|
            0 <= i < 6 ==> #[trigger] number_at(h, p + i) == number_in(w, w.this.matrix, field_of(i)),
    ensures
        matrix_at(h, p) == matrix_in(w, w.this.matrix),
{
    assert(number_at(h, p + 0) == number_in(w, w.this.matrix, field_of(0)));
    assert(number_at(h, p + 1) == number_in(w, w.this.matrix, field_of(1)));
    assert(number_at(h, p + 2) == number_in(w, w.this.matrix, field_of(2)));
    assert(number_at(h, p + 3) == number_in(w, w.this.matrix, field_of(3)));
    assert(number_at(h, p + 4) == number_in(w, w.this.matrix, field_of(4)));
    assert(number_at(h, p + 5) == number_in(w, w.this.matrix, field_of(5)));
    assert(p + 0 == p);
}

/// `scale(sx, sy)` on a runtime that answers truly: the object's matrix
/// becomes the scale by the two numbers times the object's own, so that the
/// object's transformation applies first; the six components are written
/// `a` to `ty`, then the call ends. Where the product overflows, nothing is
/// written.
#[verifier::rlimit(80)]
pub proof fn lemma_scale_run<V, E>(args: Vec<V>, w: World<V>, h: Seq<Result<Reply<V>, E>>)
    requires
        answered_truly(Task::Method(MatrixMethod::Scale, args), w, h),
        h.len() >= 8,
    ensures
        ({
            let lhs = Matrix {
                a: argument_number(w, args@, 0).fixed,
                b: 0,
                c: 0,
                d: argument_number(w, args@, 1).fixed,
                tx: 0,
                ty: 0,
            };
            let rhs = matrix_in(w, w.this.matrix);
            let r = request(Task::Method(MatrixMethod::Scale, args), w.undefined, h);
            &&& product_defined(lhs, rhs) ==> r == write_of::<V, E>(product(lhs, rhs), h.len() - 8)
            &&& !product_defined(lhs, rhs) ==> r == Request::<V, E>::Overflow
        }),
{
    let task = Task::Method(MatrixMethod::Scale, args);
    let u = w.undefined;
    lemma_operands_then_matrix(MatrixMethod::Scale, args, w, h, 2);
    lemma_matrix_answered(w, h, 2);
    assert(number_at(h, 0) == argument_number(w, args@, 0));
    assert(number_at(h, 1) == argument_number(w, args@, 1));
    lemma_true_answers_succeed(task, w, h);
    let t = tail(task, u, h);
    if h.len() < 8 + t.len() {
        lemma_tail_follows_reads(task, u, h);
    } else {
        lemma_no_error(h, 0);
    }
}

/// `translate(dx, dy)` on a runtime that answers truly: the object's matrix
/// becomes the move by the two numbers (in twips) times the object's own,
/// so that the move applies last; the six components are written `a` to
/// `ty`, then the call ends. Where the product overflows, nothing is
/// written.
#[verifier::rlimit(80)]
pub proof fn lemma_translate_run<V, E>(args: Vec<V>, w: World<V>, h: Seq<Result<Reply<V>, E>>)
    requires
        answered_truly(Task::Method(MatrixMethod::Translate, args), w, h),
        h.len() >= 8,
    ensures
        ({
            let lhs = Matrix {
                a: 65536,
                b: 0,
                c: 0,
                d: 65536,
                tx: argument_number(w, args@, 0).twips,
                ty: argument_number(w, args@, 1).twips,
            };
            let rhs = matrix_in(w, w.this.matrix);
            let r = request(Task::Method(MatrixMethod::Translate, args), w.undefined, h);
            &&& product_defined(lhs, rhs) ==> r == write_of::<V, E>(product(lhs, rhs), h.len() - 8)
            &&& !product_defined(lhs, rhs) ==> r == Request::<V, E>::Overflow
        }),
{
    let task = Task::Method(MatrixMethod::Translate, args);
    let u = w.undefined;
    lemma_operands_then_matrix(MatrixMethod::Translate, args, w, h, 2);
    lemma_matrix_answered(w, h, 2);
    assert(number_at(h, 0) == argument_number(w, args@, 0));
    assert(number_at(h, 1) == argument_number(w, args@, 1));
    lemma_true_answers_succeed(task, w, h);
    let t = tail(task, u, h);
    if h.len() < 8 + t.len() {
        lemma_tail_follows_reads(task, u, h);
    } else {
        lemma_no_error(h, 0);
    }
}

/// `rotate(angle)` on a runtime that answers truly: the object's matrix
/// becomes the rotation by the angle times the object's own, so that the
/// rotation applies last; the six components are written `a` to `ty`, then
/// the call ends. Where the product overflows, nothing is written.
#[verifier::rlimit(80)]
pub proof fn lemma_rotate_run<V, E>(args: Vec<V>, w: World<V>, h: Seq<Result<Reply<V>, E>>)
    requires
        answered_truly(Task::Method(MatrixMethod::Rotate, args), w, h),
        h.len() >= 7,
    ensures
        ({
            let lhs = argument_number(w, args@, 0).rotation;
            let rhs = matrix_in(w, w.this.matrix);
            let r = request(Task::Method(MatrixMethod::Rotate, args), w.undefined, h);
            &&& product_defined(lhs, rhs) ==> r == write_of::<V, E>(product(lhs, rhs), h.len() - 7)
            &&& !product_defined(lhs, rhs) ==> r == Request::<V, E>::Overflow
        }),
{
    let task = Task::Method(MatrixMethod::Rotate, args);
    let u = w.undefined;
    lemma_operands_then_matrix(MatrixMethod::Rotate, args, w, h, 1);
    lemma_matrix_answered(w, h, 1);
    assert(number_at(h, 0) == argument_number(w, args@, 0));
    lemma_true_answers_succeed(task, w, h);
    let t = tail(task, u, h);
    if h.len() < 7 + t.len() {
        lemma_tail_follows_reads(task, u, h);
    } else {
        lemma_no_error(h, 0);
    }
}

/// `invert()` on a runtime that answers truly: the object's matrix becomes
/// what `swf`'s inversion makes of it; the six components are written `a`
/// to `ty`, then the call ends.
#[verifier::rlimit(80)]
pub proof fn lemma_invert_run<V, E>(args: Vec<V>, w: World<V>, h: Seq<Result<Reply<V>, E>>)
    requires
        answered_truly(Task::Method(MatrixMethod::Invert, args), w, h),
        h.len() >= 6,
    ensures
        ({
            let t = swf_inverse(matrix_in(w, w.this.matrix)@);
            request(Task::Method(MatrixMethod::Invert, args), w.undefined, h) == write_of::<V, E>(
                Matrix { a: t.0, b: t.1, c: t.2, d: t.3, tx: t.4, ty: t.5 },
                h.len() - 6,
            )
        }),
{
    let task = Task::Method(MatrixMethod::Invert, args);
    let u = w.undefined;
    lemma_operands_then_matrix(MatrixMethod::Invert, args, w, h, 0);
    lemma_matrix_answered(w, h, 0);
    lemma_true_answers_succeed(task, w, h);
    let t = tail(task, u, h);
    if h.len() < 6 + t.len() {
        lemma_tail_follows_reads(task, u, h);
    } else {
        lemma_no_error(h, 0);
    }
}


/// The matrix of the object, read on a runtime that answers truly: the
/// numbers of its six properties, read `a` to `ty`.
#[verifier::rlimit(80)]
pub proof fn lemma_read_matrix_run<V, E>(w: World<V>, h: Seq<Result<Reply<V>, E>>)
    requires
        answered_truly(Task::<V>::ReadMatrix, w, h),
        h.len() >= 6,
    ensures
        request(Task::<V>::ReadMatrix, w.undefined, h) == Request::<V, E>::Finish(
            Ok(Outcome::Matrix(matrix_in(w, w.this.matrix))),
        ),
{
    let task = Task::<V>::ReadMatrix;
    let u = w.undefined;
    lemma_true_answers_succeed(task, w, h);
    assert forall|i: int| 0 <= i < 6 implies #[trigger] number_at(h, 0 + i) == number_in(
        w,
        w.this.matrix,
        field_of(i),
    ) by {
        lemma_answer_to_read(task, w, h, i);
    }
    lemma_matrix_answered(w, h, 0);
    lemma_no_error(h, 0);
}

/// `clone()` on a runtime that answers truly: the call ends with a new
/// Matrix object constructed from the six values that reading the object's
/// properties gives, `a` to `ty`, as they are (not converted).
#[verifier::rlimit(80)]
pub proof fn lemma_clone_run<V, E>(args: Vec<V>, w: World<V>, h: Seq<Result<Reply<V>, E>>)
    requires
        answered_truly(Task::Method(MatrixMethod::Clone, args), w, h),
        h.len() >= 6,
    ensures
        request(Task::Method(MatrixMethod::Clone, args), w.undefined, h) == Request::<V, E>::Finish(
            Ok(
                Outcome::Construct(
                    MatrixValues {
                        a: w.this.matrix.read(MatrixField::A, w.undefined),
                        b: w.this.matrix.read(MatrixField::B, w.undefined),
                        c: w.this.matrix.read(MatrixField::C, w.undefined),
                        d: w.this.matrix.read(MatrixField::D, w.undefined),
                        tx: w.this.matrix.read(MatrixField::Tx, w.undefined),
                        ty: w.this.matrix.read(MatrixField::Ty, w.undefined),
                    },
                ),
            ),
        ),
{
    let task = Task::Method(MatrixMethod::Clone, args);
    let u = w.undefined;
    lemma_true_answers_succeed(task, w, h);
    assert forall|i: int| 0 <= i < 6 implies #[trigger] value_at(h, i, u) == w.this.matrix.read(field_of(i), u) by {
        lemma_answer_to_read(task, w, h, i);
    }
    assert(value_at(h, 0, u) == w.this.matrix.read(field_of(0), u));
    assert(value_at(h, 1, u) == w.this.matrix.read(field_of(1), u));
    assert(value_at(h, 2, u) == w.this.matrix.read(field_of(2), u));
    assert(value_at(h, 3, u) == w.this.matrix.read(field_of(3), u));
    assert(value_at(h, 4, u) == w.this.matrix.read(field_of(4), u));
    assert(value_at(h, 5, u) == w.this.matrix.read(field_of(5), u));
    lemma_no_error(h, 0);
}

/// `identity()` on a runtime that answers truly reads nothing and writes
/// the identity matrix, `a` to `ty`, then ends.
pub proof fn lemma_identity_run<V, E>(args: Vec<V>, w: World<V>, h: Seq<Result<Reply<V>, E>>)
    requires
        answered_truly(Task::Method(MatrixMethod::Identity, args), w, h),
    ensures
        request(Task::Method(MatrixMethod::Identity, args), w.undefined, h) == write_of::<V, E>(
            Matrix { a: 65536, b: 0, c: 0, d: 65536, tx: 0, ty: 0 },
            h.len() as int,
        ),
{
    lemma_true_answers_succeed(Task::Method(MatrixMethod::Identity, args), w, h);
    lemma_no_error(h, 0);
}

/// Writing a matrix into the object on a runtime that answers truly writes
/// its six components, `a` to `ty`, then ends.
pub proof fn lemma_write_matrix_run<V, E>(m: Matrix, w: World<V>, h: Seq<Result<Reply<V>, E>>)
    requires
        answered_truly(Task::<V>::WriteMatrix(m), w, h),
    ensures
        request(Task::<V>::WriteMatrix(m), w.undefined, h) == write_of::<V, E>(m, h.len() as int),
{
    lemma_true_answers_succeed(Task::<V>::WriteMatrix(m), w, h);
    lemma_no_error(h, 0);
}

/// The constructor on a runtime that answers truly reads nothing. Without
/// arguments it writes the identity matrix, `a` to `ty`; otherwise it sets
/// the properties `a`, `b`, ... to its arguments, one for each of the first
/// six, in order, and leaves the others; then it ends.
pub proof fn lemma_construct_run<V, E>(args: Vec<V>, w: World<V>, h: Seq<Result<Reply<V>, E>>)
    requires
        answered_truly(Task::Construct(args), w, h),
    ensures
        ({
            let r = request(Task::Construct(args), w.undefined, h);
            let n = args.len();
            let j = h.len() as int;
            &&& n == 0 ==> r == write_of::<V, E>(
                Matrix { a: 65536, b: 0, c: 0, d: 65536, tx: 0, ty: 0 },
                j,
            )
            &&& 0 < n && j < n && j < 6 ==> r == Request::<V, E>::SetValue(field_of(j), args@[j])
            &&& 0 < n && (j >= n || j >= 6) ==> r == Request::<V, E>::Finish(Ok(Outcome::Undefined))
        }),
{
    lemma_true_answers_succeed(Task::Construct(args), w, h);
    lemma_no_error(h, 0);
}


/// The number the runtime gives for an optional property of the object.
pub open spec fn slot_number<V>(w: World<V>, slot: Option<V>) -> Number {
    (w.number_of)(read_slot(slot, w.undefined))
}

/// The matrix of a gradient description, read on a runtime that answers
/// truly. The call first converts `matrixType` to a string. Where that is
/// `"box"`, the matrix is the gradient box of the numbers of `w`, `h`, `r`,
/// `x` and `y`: the scale by the gradient scales of width and height, then
/// the rotation by the angle `r`, then the move by `x` plus half the width
/// and `y` plus half the height (none of them optional here); where the
/// product overflows or a move leaves the range of twips, the call
/// overflows. Otherwise the matrix is that of the object's six properties.
#[verifier::rlimit(80)]
pub proof fn lemma_read_gradient_run<V, E>(w: World<V>, h: Seq<Result<Reply<V>, E>>)
    requires
        answered_truly(Task::<V>::ReadGradient, w, h),
        h.len() >= 1,
    ensures
        ({
            let r = request(Task::<V>::ReadGradient, w.undefined, h);
            let is_box = (w.text_of)(read_slot(w.matrix_type, w.undefined))@ == seq!['b', 'o', 'x'];
            let width = slot_number(w, w.this.w);
            let height = slot_number(w, w.this.h);
            let rotation = slot_number(w, w.this.r).rotation;
            let scale = scale_matrix(width.gradient_scale, height.gradient_scale);
            let x = slot_number(w, w.this.x).twips + width.half_twips;
            let y = slot_number(w, w.this.y).twips + height.half_twips;
            let fits = i32::MIN <= x <= i32::MAX && i32::MIN <= y <= i32::MAX;
            &&& is_box && h.len() >= 6 && product_defined(rotation, scale) && fits ==> r
                == Request::<V, E>::Finish(
                Ok(
                    Outcome::Matrix(
                        product(translate_matrix(x as i32, y as i32), product(rotation, scale)),
                    ),
                ),
            )
            &&& is_box && h.len() >= 6 && !(product_defined(rotation, scale) && fits) ==> r
                == Request::<V, E>::Overflow
            &&& !is_box && h.len() >= 7 ==> r == Request::<V, E>::Finish(
                Ok(Outcome::Matrix(matrix_in(w, w.this.matrix))),
            )
        }),
{
    let task = Task::<V>::ReadGradient;
    let u = w.undefined;
    lemma_true_answers_succeed(task, w, h);
    lemma_answer_to_read(task, w, h, 0);
    assert(text_at(h, 0) == (w.text_of)(read_slot(w.matrix_type, u))@);
    assert(box_type() =~= seq!['b', 'o', 'x']);
    assert forall|i: int| 1 <= i < h.len() implies #[trigger] reads(task, u, h.take(i)) == reads(task, u, h) by {
        assert(text_at(h.take(i), 0) == text_at(h, 0));
    }
    if text_at(h, 0) == box_type() {
        if h.len() >= 6 {
            assert forall|i: int| 1 <= i < 6 implies #[trigger] h[i] == true_answer(w, reads(task, u, h)[i]) by {
                lemma_answer_to_read(task, w, h, i);
            }
            assert(number_at(h, 1) == slot_number(w, w.this.w));
            assert(number_at(h, 2) == slot_number(w, w.this.h));
            assert(number_at(h, 3) == slot_number(w, w.this.r));
            assert(number_at(h, 4) == slot_number(w, w.this.x));
            assert(number_at(h, 5) == slot_number(w, w.this.y));
        }
    } else if h.len() >= 7 {
        assert forall|i: int| 0 <= i < 6 implies #[trigger] number_at(h, 1 + i) == number_in(
            w,
            w.this.matrix,
            field_of(i),
        ) by {
            lemma_answer_to_read(task, w, h, 1 + i);
        }
        lemma_matrix_answered(w, h, 1);
    }
    lemma_no_error(h, 0);
}

} // verus!
