//! The operands of the methods, picked from the arguments they are called
//! with, and the matrix that a gradient description object asks for.
//!
//! A method reads a missing argument either as the script's `undefined`
//! (which converts to a number as NaN) or, for the optional arguments of
//! `createBox` and `createGradientBox`, as absent (the number zero).
use crate::object::{object_to_matrix, values_of, MatrixProperties, MatrixValues};
use vstd::prelude::*;

verus! {

/// Argument `index`, or `undefined` where the call has fewer arguments.
pub open spec fn argument_or<V>(args: Seq<V>, index: int, undefined: V) -> V {
    if 0 <= index < args.len() {
        args[index]
    } else {
        undefined
    }
}

/// Argument `index`, or `None` where the call has fewer arguments.
pub open spec fn optional_argument_of<V>(args: Seq<V>, index: int) -> Option<V> {
    if 0 <= index < args.len() {
        Some(args[index])
    } else {
        None
    }
}

/// Argument `index`, or `undefined` where the call has fewer arguments: the
/// operands of `scale` (0 and 1), `rotate` (0), `translate` (0 and 1) and
/// `concat` (0).
pub fn argument<V: Copy>(args: &Vec<V>, index: usize, undefined: V) -> (v: V)
    ensures
        v == argument_or(args@, index as int, undefined),
{
    if index < args.len() {
        args[index]
    } else {
        undefined
    }
}

/// Argument `index`, if the call has it.
pub fn optional_argument<V: Copy>(args: &Vec<V>, index: usize) -> (v: Option<V>)
    ensures
        v == optional_argument_of(args@, index as int),
{
    if index < args.len() {
        Some(args[index])
    } else {
        None
    }
}

/// The operands of a box matrix: the horizontal and vertical scale (or
/// width and height), the rotation, and the translation. An absent
/// rotation or translation stands for zero.
#[derive(Debug)]
pub struct BoxArguments<V> {
    pub horizontal: V,
    pub vertical: V,
    pub rotation: Option<V>,
    pub translate_x: Option<V>,
    pub translate_y: Option<V>,
}

/// The operands of `createBox(scaleX, scaleY, rotation, tx, ty)`: the
/// scales and the rotation read a missing argument as `undefined`, the
/// translation as absent.
pub fn create_box_arguments<V: Copy>(args: &Vec<V>, undefined: V) -> (b: BoxArguments<V>)
    ensures
        b.horizontal == argument_or(args@, 0, undefined),
        b.vertical == argument_or(args@, 1, undefined),
        b.rotation == Some(argument_or(args@, 2, undefined)),
        b.translate_x == optional_argument_of(args@, 3),
        b.translate_y == optional_argument_of(args@, 4),
{
    BoxArguments {
        horizontal: argument(args, 0, undefined),
        vertical: argument(args, 1, undefined),
        rotation: Some(argument(args, 2, undefined)),
        translate_x: optional_argument(args, 3),
        translate_y: optional_argument(args, 4),
    }
}

/// The operands of `createGradientBox(width, height, rotation, tx, ty)`:
/// width and height read a missing argument as `undefined`; the rotation
/// and the translation as absent.
pub fn create_gradient_box_arguments<V: Copy>(args: &Vec<V>, undefined: V) -> (b: BoxArguments<
    V,
>)
    ensures
        b.horizontal == argument_or(args@, 0, undefined),
        b.vertical == argument_or(args@, 1, undefined),
        b.rotation == optional_argument_of(args@, 2),
        b.translate_x == optional_argument_of(args@, 3),
        b.translate_y == optional_argument_of(args@, 4),
{
    BoxArguments {
        horizontal: argument(args, 0, undefined),
        vertical: argument(args, 1, undefined),
        rotation: optional_argument(args, 2),
        translate_x: optional_argument(args, 3),
        translate_y: optional_argument(args, 4),
    }
}

/// The value of `matrixType` that asks for a gradient box.
pub open spec fn box_type() -> Seq<char> {
    seq!['b', 'o', 'x']
}

/// Which matrix a gradient description object describes.
#[derive(Clone, Copy, Debug, PartialEq, Eq, Structural)]
pub enum GradientMatrixKind {
    /// A gradient box given by `w`, `h`, `r`, `x` and `y`.
    Box,
    /// A matrix given by `a`, `b`, `c`, `d`, `tx` and `ty`.
    Properties,
}

/// The kind of matrix that a `matrixType` (converted to a string) asks for:
/// a box exactly when it is `"box"`.
pub fn gradient_matrix_kind(matrix_type: &str) -> (kind: GradientMatrixKind)
    ensures
        kind == GradientMatrixKind::Box <==> matrix_type@ == box_type(),
{
    let n = matrix_type.unicode_len();
    if n == 3 && matrix_type.get_char(0) == 'b' && matrix_type.get_char(1) == 'o'
        && matrix_type.get_char(2) == 'x' {
        assert(matrix_type@ == box_type());
        GradientMatrixKind::Box
    } else {
        GradientMatrixKind::Properties
    }
}

/// The properties of a gradient description object that its matrix is read
/// from: `w`, `h`, `r`, `x`, `y` for a box, and the six matrix properties.
#[derive(Debug)]
pub struct GradientProperties<V> {
    pub w: Option<V>,
    pub h: Option<V>,
    pub r: Option<V>,
    pub x: Option<V>,
    pub y: Option<V>,
    pub matrix: MatrixProperties<V>,
}

/// What a gradient description object gives for its matrix.
#[derive(Debug)]
pub enum GradientMatrixSource<V> {
    /// The operands of a gradient box.
    Box(BoxArguments<V>),
    /// The six matrix properties.
    Properties(MatrixValues<V>),
}

/// Reads an optional property: its value, or `undefined`.
fn read_or<V: Copy>(slot: Option<V>, undefined: V) -> (v: V)
    ensures
        v == read_slot(slot, undefined),
{
    match slot {
        Some(x) => x,
        None => undefined,
    }
}

/// The matrix of a gradient description object. Where its `matrixType`
/// (converted to a string) is `"box"`, the operands of a gradient box read
/// from `w`, `h`, `r`, `x` and `y`, every one of them present (a missing
/// property reads as `undefined`); otherwise its six matrix properties.
pub fn gradient_object_to_matrix<V: Copy>(
    matrix_type: &str,
    object: &GradientProperties<V>,
    undefined: V,
) -> (source: GradientMatrixSource<V>)
    ensures
        matrix_type@ == box_type() ==> source == GradientMatrixSource::Box(
            BoxArguments {
                horizontal: read_slot(object.w, undefined),
                vertical: read_slot(object.h, undefined),
                rotation: Some(read_slot(object.r, undefined)),
                translate_x: Some(read_slot(object.x, undefined)),
                translate_y: Some(read_slot(object.y, undefined)),
            },
        ),
        matrix_type@ != box_type() ==> source == GradientMatrixSource::Properties(
            values_of(object.matrix, undefined),
        ),
{
    match gradient_matrix_kind(matrix_type) {
        GradientMatrixKind::Box => GradientMatrixSource::Box(
            BoxArguments {
                horizontal: read_or(object.w, undefined),
                vertical: read_or(object.h, undefined),
                rotation: Some(read_or(object.r, undefined)),
                translate_x: Some(read_or(object.x, undefined)),
                translate_y: Some(read_or(object.y, undefined)),
            },
        ),
        GradientMatrixKind::Properties => GradientMatrixSource::Properties(
            object_to_matrix(&object.matrix, undefined),
        ),
    }
}

/// What reading an optional property gives: its value, or `undefined`.
pub open spec fn read_slot<V>(slot: Option<V>, undefined: V) -> V {
    match slot {
        Some(x) => x,
        None => undefined,
    }
}

} // verus!
