//! The methods of the Matrix prototype.
use vstd::prelude::*;

verus! {

/// A method that the Matrix prototype provides.
#[derive(Clone, Copy, Debug, PartialEq, Eq, Structural)]
pub enum MatrixMethod {
    ToString,
    Identity,
    Clone,
    Scale,
    Rotate,
    Translate,
    Concat,
    Invert,
    CreateBox,
    CreateGradientBox,
}

/// The name under which the prototype holds a method.
pub open spec fn method_name_of(method: MatrixMethod) -> Seq<char> {
    match method {
        MatrixMethod::ToString => seq!['t', 'o', 'S', 't', 'r', 'i', 'n', 'g'],
        MatrixMethod::Identity => seq!['i', 'd', 'e', 'n', 't', 'i', 't', 'y'],
        MatrixMethod::Clone => seq!['c', 'l', 'o', 'n', 'e'],
        MatrixMethod::Scale => seq!['s', 'c', 'a', 'l', 'e'],
        MatrixMethod::Rotate => seq!['r', 'o', 't', 'a', 't', 'e'],
        MatrixMethod::Translate => seq!['t', 'r', 'a', 'n', 's', 'l', 'a', 't', 'e'],
        MatrixMethod::Concat => seq!['c', 'o', 'n', 'c', 'a', 't'],
        MatrixMethod::Invert => seq!['i', 'n', 'v', 'e', 'r', 't'],
        MatrixMethod::CreateBox => seq!['c', 'r', 'e', 'a', 't', 'e', 'B', 'o', 'x'],
        MatrixMethod::CreateGradientBox => seq![
            'c', 'r', 'e', 'a', 't', 'e', 'G', 'r', 'a', 'd', 'i', 'e', 'n', 't', 'B', 'o', 'x',
        ],
    }
}

/// The name under which the prototype holds `method`.
pub fn method_name(method: MatrixMethod) -> (name: &'static str)
    ensures
        name@ == method_name_of(method),
{
    proof {
        reveal_strlit("toString");
        reveal_strlit("identity");
        reveal_strlit("clone");
        reveal_strlit("scale");
        reveal_strlit("rotate");
        reveal_strlit("translate");
        reveal_strlit("concat");
        reveal_strlit("invert");
        reveal_strlit("createBox");
        reveal_strlit("createGradientBox");
    }
    match method {
        MatrixMethod::ToString => "toString",
        MatrixMethod::Identity => "identity",
        MatrixMethod::Clone => "clone",
        MatrixMethod::Scale => "scale",
        MatrixMethod::Rotate => "rotate",
        MatrixMethod::Translate => "translate",
        MatrixMethod::Concat => "concat",
        MatrixMethod::Invert => "invert",
        MatrixMethod::CreateBox => "createBox",
        MatrixMethod::CreateGradientBox => "createGradientBox",
    }
}

/// The methods of the prototype, in the order in which it defines them.
pub open spec fn prototype_methods() -> Seq<MatrixMethod> {
    seq![
        MatrixMethod::ToString,
        MatrixMethod::Identity,
        MatrixMethod::Clone,
        MatrixMethod::Scale,
        MatrixMethod::Rotate,
        MatrixMethod::Translate,
        MatrixMethod::Concat,
        MatrixMethod::Invert,
        MatrixMethod::CreateBox,
        MatrixMethod::CreateGradientBox,
    ]
}

/// The methods that the Matrix prototype defines, in order; each is
/// defined under [`method_name`], and a call of it is
/// [`Task::Method`](crate::call::Task::Method).
pub fn create_proto() -> (methods: Vec<MatrixMethod>)
    ensures
        methods@ == prototype_methods(),
{
    let mut methods = Vec::new();
    methods.push(MatrixMethod::ToString);
    methods.push(MatrixMethod::Identity);
    methods.push(MatrixMethod::Clone);
    methods.push(MatrixMethod::Scale);
    methods.push(MatrixMethod::Rotate);
    methods.push(MatrixMethod::Translate);
    methods.push(MatrixMethod::Concat);
    methods.push(MatrixMethod::Invert);
    methods.push(MatrixMethod::CreateBox);
    methods.push(MatrixMethod::CreateGradientBox);
    methods
}

/// The prototype defines every method exactly once, and no two of its
/// methods share a name, so none replaces another.
pub proof fn lemma_prototype_well_formed(i: int, j: int, method: MatrixMethod)
    ensures
        prototype_methods().contains(method),
        0 <= i < j < prototype_methods().len() ==> prototype_methods()[i] != prototype_methods()[j]
            && method_name_of(prototype_methods()[i]) != method_name_of(prototype_methods()[j]),
{
    let ms = prototype_methods();
    assert(ms[0] == MatrixMethod::ToString);
    match method {
        MatrixMethod::ToString => assert(ms[0] == method),
        MatrixMethod::Identity => assert(ms[1] == method),
        MatrixMethod::Clone => assert(ms[2] == method),
        MatrixMethod::Scale => assert(ms[3] == method),
        MatrixMethod::Rotate => assert(ms[4] == method),
        MatrixMethod::Translate => assert(ms[5] == method),
        MatrixMethod::Concat => assert(ms[6] == method),
        MatrixMethod::Invert => assert(ms[7] == method),
        MatrixMethod::CreateBox => assert(ms[8] == method),
        MatrixMethod::CreateGradientBox => assert(ms[9] == method),
    }
    if 0 <= i < j < ms.len() {
        lemma_names_distinct(ms[i], ms[j]);
    }
}

/// Two different methods have different names.
pub proof fn lemma_names_distinct(m: MatrixMethod, n: MatrixMethod)
    ensures
        m != n ==> method_name_of(m) != method_name_of(n),
{
    let (x, y) = (method_name_of(m), method_name_of(n));
    if m != n && x.len() == y.len() {
        // Names of equal length start with different letters.
        assert(x[0] != y[0]);
    }
}

} // verus!
