//! The six properties of a Matrix object.
//!
//! A Matrix object keeps its matrix in the properties `a`, `b`, `c`, `d`,
//! `tx` and `ty`, in that order, holding script values of any type `V`. A
//! property the object does not have reads as the script's `undefined`,
//! which the caller passes in.
use vstd::prelude::*;

verus! {

/// One of the six properties of a Matrix object.
#[derive(Clone, Copy, Debug, PartialEq, Eq, Structural)]
pub enum MatrixField {
    A,
    B,
    C,
    D,
    Tx,
    Ty,
}

/// The number of properties of a Matrix object.
pub const FIELD_COUNT: usize = 6;

impl MatrixField {
    /// The position of the property: the constructor's argument that sets it.
    pub open spec fn index(self) -> int {
        match self {
            MatrixField::A => 0,
            MatrixField::B => 1,
            MatrixField::C => 2,
            MatrixField::D => 3,
            MatrixField::Tx => 4,
            MatrixField::Ty => 5,
        }
    }
}

/// The property at position `i` (for `0 <= i < 6`).
pub open spec fn field_of(i: int) -> MatrixField {
    if i == 0 {
        MatrixField::A
    } else if i == 1 {
        MatrixField::B
    } else if i == 2 {
        MatrixField::C
    } else if i == 3 {
        MatrixField::D
    } else if i == 4 {
        MatrixField::Tx
    } else {
        MatrixField::Ty
    }
}

/// The name of a property.
pub open spec fn field_name_of(field: MatrixField) -> Seq<char> {
    match field {
        MatrixField::A => seq!['a'],
        MatrixField::B => seq!['b'],
        MatrixField::C => seq!['c'],
        MatrixField::D => seq!['d'],
        MatrixField::Tx => seq!['t', 'x'],
        MatrixField::Ty => seq!['t', 'y'],
    }
}

/// The name under which the object holds `field`.
pub fn field_name(field: MatrixField) -> (name: &'static str)
    ensures
        name@ == field_name_of(field),
{
    proof {
        reveal_strlit("a");
        reveal_strlit("b");
        reveal_strlit("c");
        reveal_strlit("d");
        reveal_strlit("tx");
        reveal_strlit("ty");
    }
    match field {
        MatrixField::A => "a",
        MatrixField::B => "b",
        MatrixField::C => "c",
        MatrixField::D => "d",
        MatrixField::Tx => "tx",
        MatrixField::Ty => "ty",
    }
}

/// The property at position `index`, if there is one.
pub fn field_at(index: usize) -> (field: Option<MatrixField>)
    ensures
        index < FIELD_COUNT ==> field == Some(field_of(index as int)),
        index >= FIELD_COUNT ==> field is None,
{
    if index == 0 {
        Some(MatrixField::A)
    } else if index == 1 {
        Some(MatrixField::B)
    } else if index == 2 {
        Some(MatrixField::C)
    } else if index == 3 {
        Some(MatrixField::D)
    } else if index == 4 {
        Some(MatrixField::Tx)
    } else if index == 5 {
        Some(MatrixField::Ty)
    } else {
        None
    }
}

/// Setting one property leaves the others as they were.
proof fn lemma_with_slot<V>(object: MatrixProperties<V>, field: MatrixField, value: V, f: MatrixField)
    ensures
        object.with(field, value).slot(f) == if f == field {
            Some(value)
        } else {
            object.slot(f)
        },
{
}

/// The property at a position sits at that position.
proof fn lemma_field_of_index(i: int)
    requires
        0 <= i < FIELD_COUNT,
    ensures
        field_of(i).index() == i,
{
}

/// The six positions and the six names are in one-to-one correspondence
/// with the properties.
pub proof fn lemma_fields_distinct(f: MatrixField, g: MatrixField)
    ensures
        0 <= f.index() < FIELD_COUNT,
        field_of(f.index()) == f,
        f != g ==> f.index() != g.index(),
        f != g ==> field_name_of(f) != field_name_of(g),
{
    if f != g {
        let (nf, ng) = (field_name_of(f), field_name_of(g));
        if nf.len() == ng.len() {
            if nf.len() == 1 {
                assert(nf[0] != ng[0]);
            } else {
                assert(nf[1] != ng[1]);
            }
        }
    }
}

/// The values of the six properties, one for each.
#[derive(Debug)]
pub struct MatrixValues<V> {
    pub a: V,
    pub b: V,
    pub c: V,
    pub d: V,
    pub tx: V,
    pub ty: V,
}

impl<V> MatrixValues<V> {
    /// The value for `field`.
    pub open spec fn at(self, field: MatrixField) -> V {
        match field {
            MatrixField::A => self.a,
            MatrixField::B => self.b,
            MatrixField::C => self.c,
            MatrixField::D => self.d,
            MatrixField::Tx => self.tx,
            MatrixField::Ty => self.ty,
        }
    }

    /// The values in the order of the properties.
    pub open spec fn values(self) -> Seq<V> {
        seq![self.a, self.b, self.c, self.d, self.tx, self.ty]
    }
}

/// The six properties as an object holds them: `None` where the object
/// does not have the property.
#[derive(Debug)]
pub struct MatrixProperties<V> {
    pub a: Option<V>,
    pub b: Option<V>,
    pub c: Option<V>,
    pub d: Option<V>,
    pub tx: Option<V>,
    pub ty: Option<V>,
}

impl<V> MatrixProperties<V> {
    /// What the object holds for `field`.
    pub open spec fn slot(self, field: MatrixField) -> Option<V> {
        match field {
            MatrixField::A => self.a,
            MatrixField::B => self.b,
            MatrixField::C => self.c,
            MatrixField::D => self.d,
            MatrixField::Tx => self.tx,
            MatrixField::Ty => self.ty,
        }
    }

    /// What reading `field` gives: its value, or `undefined` if the object
    /// does not have it.
    pub open spec fn read(self, field: MatrixField, undefined: V) -> V {
        match self.slot(field) {
            Some(v) => v,
            None => undefined,
        }
    }

    /// The object holds all six properties.
    pub open spec fn complete(self) -> bool {
        forall|f: MatrixField| #[trigger] self.slot(f) is Some
    }

    /// An object without any of the six properties.
    pub fn new() -> (object: Self)
        ensures
            object == empty_properties::<V>(),
    {
        MatrixProperties { a: None, b: None, c: None, d: None, tx: None, ty: None }
    }

    /// Reads `field`: its value, or `undefined` if the object does not have
    /// it.
    pub fn get(&self, field: MatrixField, undefined: V) -> (v: V) where V: Copy
        ensures
            v == self.read(field, undefined),
    {
        let slot = match field {
            MatrixField::A => self.a,
            MatrixField::B => self.b,
            MatrixField::C => self.c,
            MatrixField::D => self.d,
            MatrixField::Tx => self.tx,
            MatrixField::Ty => self.ty,
        };
        match slot {
            Some(v) => v,
            None => undefined,
        }
    }

    /// Sets `field` to `value`; the other properties stay as they were.
    pub fn set(&mut self, field: MatrixField, value: V)
        ensures
            *final(self) == old(self).with(field, value),
    {
        match field {
            MatrixField::A => self.a = Some(value),
            MatrixField::B => self.b = Some(value),
            MatrixField::C => self.c = Some(value),
            MatrixField::D => self.d = Some(value),
            MatrixField::Tx => self.tx = Some(value),
            MatrixField::Ty => self.ty = Some(value),
        }
    }

    /// The object with `field` set to `value`.
    pub open spec fn with(self, field: MatrixField, value: V) -> Self {
        match field {
            MatrixField::A => MatrixProperties { a: Some(value), ..self },
            MatrixField::B => MatrixProperties { b: Some(value), ..self },
            MatrixField::C => MatrixProperties { c: Some(value), ..self },
            MatrixField::D => MatrixProperties { d: Some(value), ..self },
            MatrixField::Tx => MatrixProperties { tx: Some(value), ..self },
            MatrixField::Ty => MatrixProperties { ty: Some(value), ..self },
        }
    }
}

/// An object without any of the six properties.
pub open spec fn empty_properties<V>() -> MatrixProperties<V> {
    MatrixProperties { a: None, b: None, c: None, d: None, tx: None, ty: None }
}

/// An object holding the six given values.
pub open spec fn properties_of<V>(m: MatrixValues<V>) -> MatrixProperties<V> {
    MatrixProperties {
        a: Some(m.a),
        b: Some(m.b),
        c: Some(m.c),
        d: Some(m.d),
        tx: Some(m.tx),
        ty: Some(m.ty),
    }
}

/// The six values that reading the properties of `object` gives.
pub open spec fn values_of<V>(object: MatrixProperties<V>, undefined: V) -> MatrixValues<V> {
    MatrixValues {
        a: object.read(MatrixField::A, undefined),
        b: object.read(MatrixField::B, undefined),
        c: object.read(MatrixField::C, undefined),
        d: object.read(MatrixField::D, undefined),
        tx: object.read(MatrixField::Tx, undefined),
        ty: object.read(MatrixField::Ty, undefined),
    }
}

/// `object` after the constructor's assignment of `args`: the property at
/// position `i` takes `args[i]` where there is one, the others stay.
pub open spec fn assigned<V>(object: MatrixProperties<V>, args: Seq<V>) -> MatrixProperties<V> {
    let pick = |f: MatrixField|
        if f.index() < args.len() {
            Some(args[f.index()])
        } else {
            object.slot(f)
        };
    MatrixProperties {
        a: pick(MatrixField::A),
        b: pick(MatrixField::B),
        c: pick(MatrixField::C),
        d: pick(MatrixField::D),
        tx: pick(MatrixField::Tx),
        ty: pick(MatrixField::Ty),
    }
}

/// `object` after the constructor ran with `args`: without arguments it
/// holds the identity matrix, otherwise the arguments are assigned.
pub open spec fn constructed<V>(
    object: MatrixProperties<V>,
    args: Seq<V>,
    identity: MatrixValues<V>,
) -> MatrixProperties<V> {
    if args.len() == 0 {
        properties_of(identity)
    } else {
        assigned(object, args)
    }
}

/// Reads the six properties of `object`, in the order `a`, `b`, `c`, `d`,
/// `tx`, `ty`, as the methods do before they convert them to a matrix.
pub fn object_to_matrix<V: Copy>(object: &MatrixProperties<V>, undefined: V) -> (m: MatrixValues<
    V,
>)
    ensures
        m == values_of(*object, undefined),
{
    MatrixValues {
        a: object.get(MatrixField::A, undefined),
        b: object.get(MatrixField::B, undefined),
        c: object.get(MatrixField::C, undefined),
        d: object.get(MatrixField::D, undefined),
        tx: object.get(MatrixField::Tx, undefined),
        ty: object.get(MatrixField::Ty, undefined),
    }
}

/// Sets the six properties of `object` to the values of a matrix.
pub fn apply_matrix_to_object<V>(matrix: MatrixValues<V>, object: &mut MatrixProperties<V>)
    ensures
        *final(object) == properties_of(matrix),
{
    object.set(MatrixField::A, matrix.a);
    object.set(MatrixField::B, matrix.b);
    object.set(MatrixField::C, matrix.c);
    object.set(MatrixField::D, matrix.d);
    object.set(MatrixField::Tx, matrix.tx);
    object.set(MatrixField::Ty, matrix.ty);
}

/// The arguments with which a Matrix object is constructed from a matrix:
/// its six values in the order of the properties.
pub fn constructor_arguments<V>(matrix: MatrixValues<V>) -> (args: Vec<V>)
    ensures
        args@ == matrix.values(),
{
    let mut args = Vec::new();
    args.push(matrix.a);
    args.push(matrix.b);
    args.push(matrix.c);
    args.push(matrix.d);
    args.push(matrix.tx);
    args.push(matrix.ty);
    args
}

/// Sets the property at position `i` to `args[i]` for each argument that
/// has a property, `a` first; arguments past the sixth are dropped.
fn assign_arguments<V>(this: &mut MatrixProperties<V>, args: Vec<V>)
    ensures
        *final(this) == assigned(*old(this), args@),
{
    let ghost original = args@;
    let ghost before = *this;
    let mut args = args;
    args.truncate(FIELD_COUNT);
    let ghost kept = args@;
    assert(assigned(before, original) == assigned(before, kept));
    let mut index: usize = 0;
    assert(args@ == kept.subrange(0, kept.len() as int));
    while args.len() > 0
        invariant
            index + args@.len() == kept.len(),
            kept.len() <= FIELD_COUNT,
            args@ == kept.subrange(index as int, kept.len() as int),
            forall|f: MatrixField|
                #[trigger] this.slot(f) == if f.index() < index {
                    Some(kept[f.index()])
                } else {
                    before.slot(f)
                },
        decreases args.len(),
    {
        let value = args.remove(0);
        assert(value == kept[index as int]);
        assert(args@ == kept.subrange(index + 1, kept.len() as int));
        proof {
            lemma_field_of_index(index as int);
        }
        let ghost prev_this = *this;
        match field_at(index) {
            Some(field) => {
                this.set(field, value);
            },
            None => {},
        }
        assert forall|f: MatrixField| #[trigger]
            this.slot(f) == if f.index() < index + 1 {
                Some(kept[f.index()])
            } else {
                before.slot(f)
            } by {
            lemma_fields_distinct(f, field_of(index as int));
            lemma_with_slot(prev_this, field_of(index as int), value, f);
            assert(prev_this.slot(f) == if f.index() < index {
                Some(kept[f.index()])
            } else {
                before.slot(f)
            });
        }
        index = index + 1;
    }
    assert(this.slot(MatrixField::A) == assigned(before, kept).slot(MatrixField::A));
    assert(this.slot(MatrixField::B) == assigned(before, kept).slot(MatrixField::B));
    assert(this.slot(MatrixField::C) == assigned(before, kept).slot(MatrixField::C));
    assert(this.slot(MatrixField::D) == assigned(before, kept).slot(MatrixField::D));
    assert(this.slot(MatrixField::Tx) == assigned(before, kept).slot(MatrixField::Tx));
    assert(this.slot(MatrixField::Ty) == assigned(before, kept).slot(MatrixField::Ty));
}

/// The constructor: without arguments the object gets the identity matrix
/// (whose six values the caller passes); otherwise each of the first six
/// arguments sets the property at its position, and the properties without
/// an argument stay as they were. The constructor call of
/// [`call`](crate::call) makes exactly these writes, with the values the
/// runtime stores for the identity matrix as `identity`
/// ([`lemma_constructor_call`](crate::call::lemma_constructor_call)).
pub fn constructor<V>(this: &mut MatrixProperties<V>, args: Vec<V>, identity: MatrixValues<V>)
    ensures
        *final(this) == constructed(*old(this), args@, identity),
{
    if args.len() == 0 {
        apply_matrix_to_object(identity, this);
    } else {
        assign_arguments(this, args);
    }
}

/// The method `identity`: sets the object's properties to the identity
/// matrix, whose six values the caller passes. The `identity` call of
/// [`call`](crate::call) writes the identity matrix, which leaves the object
/// as this function does with the values the runtime stores for it
/// ([`lemma_matrix_writes_set_all`](crate::call::lemma_matrix_writes_set_all)).
pub fn identity<V>(this: &mut MatrixProperties<V>, identity: MatrixValues<V>)
    ensures
        *final(this) == properties_of(identity),
{
    apply_matrix_to_object(identity, this);
}

/// A new Matrix object holding a matrix: constructed with the matrix's six
/// values as arguments.
pub fn matrix_to_object<V>(matrix: MatrixValues<V>) -> (object: MatrixProperties<V>)
    ensures
        object == assigned(empty_properties(), matrix.values()),
        object == properties_of(matrix),
{
    let mut object = MatrixProperties::new();
    assign_arguments(&mut object, constructor_arguments(matrix));
    object
}

/// The method `clone`: a new Matrix object constructed with the values that
/// reading the six properties of `this` gives.
pub fn clone<V: Copy>(this: &MatrixProperties<V>, undefined: V) -> (copy: MatrixProperties<V>)
    ensures
        copy == properties_of(values_of(*this, undefined)),
{
    matrix_to_object(object_to_matrix(this, undefined))
}


/// Reading the properties of an object that a matrix's values were written
/// to gives those values back.
pub proof fn lemma_read_after_write<V>(m: MatrixValues<V>, undefined: V)
    ensures
        values_of(properties_of(m), undefined) == m,
{
}

/// A clone reads the same as the original: for every property, reading the
/// copy gives what reading the original gave.
pub proof fn lemma_clone_reads_alike<V>(object: MatrixProperties<V>, undefined: V)
    ensures
        values_of(properties_of(values_of(object, undefined)), undefined) == values_of(
            object,
            undefined,
        ),
{
}

/// A clone of an object that holds all six properties is that object.
pub proof fn lemma_clone_of_complete<V>(object: MatrixProperties<V>, undefined: V)
    requires
        object.complete(),
    ensures
        properties_of(values_of(object, undefined)) == object,
{
    assert(object.slot(MatrixField::A) is Some);
    assert(object.slot(MatrixField::B) is Some);
    assert(object.slot(MatrixField::C) is Some);
    assert(object.slot(MatrixField::D) is Some);
    assert(object.slot(MatrixField::Tx) is Some);
    assert(object.slot(MatrixField::Ty) is Some);
}

/// Constructing with the six values of a matrix as arguments gives the
/// object that holds that matrix, whatever the object held before; this is
/// what [`matrix_to_object`] and [`clone`] rely on.
pub proof fn lemma_construct_from_values<V>(
    object: MatrixProperties<V>,
    m: MatrixValues<V>,
    identity: MatrixValues<V>,
)
    ensures
        constructed(object, m.values(), identity) == properties_of(m),
{
}

/// The constructor ignores the arguments past the sixth.
pub proof fn lemma_extra_arguments_ignored<V>(
    object: MatrixProperties<V>,
    args: Seq<V>,
    identity: MatrixValues<V>,
)
    requires
        args.len() > FIELD_COUNT,
    ensures
        constructed(object, args, identity) == constructed(
            object,
            args.subrange(0, FIELD_COUNT as int),
            identity,
        ),
{
}

/// With fewer than six arguments, the constructor leaves the properties
/// past the last argument as the object held them.
pub proof fn lemma_missing_arguments_keep_properties<V>(
    object: MatrixProperties<V>,
    args: Seq<V>,
    identity: MatrixValues<V>,
    f: MatrixField,
)
    requires
        0 < args.len(),
        args.len() <= f.index(),
    ensures
        constructed(object, args, identity).slot(f) == object.slot(f),
{
}


/// The text `toString` shows for the six property values, each already
/// converted to a string: `(a=…, b=…, c=…, d=…, tx=…, ty=…)`.
pub open spec fn matrix_text(
    a: Seq<char>,
    b: Seq<char>,
    c: Seq<char>,
    d: Seq<char>,
    tx: Seq<char>,
    ty: Seq<char>,
) -> Seq<char> {
    "(a="@ + a + ", b="@ + b + ", c="@ + c + ", d="@ + d + ", tx="@ + tx + ", ty="@ + ty + ")"@
}

/// The method `toString`, given the six property values converted to
/// strings in the order `a`, `b`, `c`, `d`, `tx`, `ty`.
pub fn to_string(values: &MatrixValues<String>) -> (text: String)
    ensures
        text@ == matrix_text(values.a@, values.b@, values.c@, values.d@, values.tx@, values.ty@),
{
    let mut text = String::from_str("(a=");
    text.append(values.a.as_str());
    text.append(", b=");
    text.append(values.b.as_str());
    text.append(", c=");
    text.append(values.c.as_str());
    text.append(", d=");
    text.append(values.d.as_str());
    text.append(", tx=");
    text.append(values.tx.as_str());
    text.append(", ty=");
    text.append(values.ty.as_str());
    text.append(")");
    text
}

} // verus!
