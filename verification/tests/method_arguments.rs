use avm1_matrix::arguments::{
    argument, create_box_arguments, create_gradient_box_arguments, gradient_matrix_kind,
    gradient_object_to_matrix, optional_argument, GradientMatrixKind, GradientMatrixSource,
    GradientProperties,
};
use avm1_matrix::object::{MatrixProperties, MatrixValues};
use avm1_matrix::proto::{create_proto, method_name};

const UNDEFINED: i64 = -1;

#[test]
fn missing_argument_is_undefined() {
    let args = vec![10, 20];
    assert_eq!(argument(&args, 0, UNDEFINED), 10);
    assert_eq!(argument(&args, 1, UNDEFINED), 20);
    assert_eq!(argument(&args, 2, UNDEFINED), UNDEFINED);
    assert_eq!(optional_argument(&args, 1), Some(20));
    assert_eq!(optional_argument(&args, 2), None);
}

#[test]
fn create_box_defaults() {
    let b = create_box_arguments(&vec![2, 3], UNDEFINED);
    assert_eq!(b.horizontal, 2);
    assert_eq!(b.vertical, 3);
    assert_eq!(b.rotation, Some(UNDEFINED));
    assert_eq!(b.translate_x, None);
    assert_eq!(b.translate_y, None);
    let full = create_box_arguments(&vec![1, 2, 3, 4, 5, 6], UNDEFINED);
    assert_eq!(
        (full.horizontal, full.vertical, full.rotation, full.translate_x, full.translate_y),
        (1, 2, Some(3), Some(4), Some(5))
    );
}

#[test]
fn create_gradient_box_defaults() {
    let b = create_gradient_box_arguments(&vec![100], UNDEFINED);
    assert_eq!(b.horizontal, 100);
    assert_eq!(b.vertical, UNDEFINED);
    assert_eq!(b.rotation, None);
    assert_eq!(b.translate_x, None);
    assert_eq!(b.translate_y, None);
    let b = create_gradient_box_arguments(&vec![100, 50, 7, 8], UNDEFINED);
    assert_eq!(b.rotation, Some(7));
    assert_eq!(b.translate_x, Some(8));
    assert_eq!(b.translate_y, None);
}

#[test]
fn only_box_asks_for_a_gradient_box() {
    assert_eq!(gradient_matrix_kind("box"), GradientMatrixKind::Box);
    assert_eq!(gradient_matrix_kind("Box"), GradientMatrixKind::Properties);
    assert_eq!(gradient_matrix_kind("boxy"), GradientMatrixKind::Properties);
    assert_eq!(gradient_matrix_kind(""), GradientMatrixKind::Properties);
}

fn gradient_object() -> GradientProperties<i64> {
    GradientProperties {
        w: Some(200),
        h: None,
        r: Some(1),
        x: Some(10),
        y: Some(20),
        matrix: MatrixProperties { a: Some(1), b: Some(2), c: None, d: Some(4), tx: Some(5), ty: Some(6) },
    }
}

#[test]
fn gradient_box_reads_box_properties() {
    match gradient_object_to_matrix("box", &gradient_object(), UNDEFINED) {
        GradientMatrixSource::Box(b) => {
            assert_eq!(b.horizontal, 200);
            assert_eq!(b.vertical, UNDEFINED);
            assert_eq!(b.rotation, Some(1));
            assert_eq!(b.translate_x, Some(10));
            assert_eq!(b.translate_y, Some(20));
        }
        GradientMatrixSource::Properties(_) => panic!("expected a box"),
    }
}

#[test]
fn gradient_matrix_reads_matrix_properties() {
    match gradient_object_to_matrix("matrix", &gradient_object(), UNDEFINED) {
        GradientMatrixSource::Properties(MatrixValues { a, b, c, d, tx, ty }) => {
            assert_eq!((a, b, c, d, tx, ty), (1, 2, UNDEFINED, 4, 5, 6));
        }
        GradientMatrixSource::Box(_) => panic!("expected the matrix properties"),
    }
}

#[test]
fn prototype_methods_and_names() {
    let names: Vec<&str> = create_proto().into_iter().map(method_name).collect();
    assert_eq!(
        names,
        vec![
            "toString",
            "identity",
            "clone",
            "scale",
            "rotate",
            "translate",
            "concat",
            "invert",
            "createBox",
            "createGradientBox"
        ]
    );
}
