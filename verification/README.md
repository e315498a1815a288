# avm1_matrix

The `flash.geom.Matrix` class of an AVM1 (ActionScript 1/2) runtime, as a
verified library.

* `src/matrix.rs`: the transformation matrix in the representation of the
  `swf` crate (16.16 fixed-point scale and skew, translation in twips) and
  the operations of the class's methods on it: identity, `concat`, `scale`,
  `rotate`, `translate`, `invert`, and the box of `createBox`. The products are computed by `swf`; their
  results are stated exactly, with the inputs on which `swf` overflows left
  out.
* `src/object.rs`: the six properties `a`, `b`, `c`, `d`, `tx`, `ty` of a
  Matrix object: reading and writing them, the constructor, `identity`,
  `clone` and `toString`.
* `src/arguments.rs`: the operands that the methods take from their
  arguments, and the matrix that a gradient description object describes.
* `src/proto.rs`: the methods of the prototype and their names.
* `src/call.rs`: a call of a method (or of the constructor, or of a
  conversion between an object and its matrix) as a conversation with the
  script runtime: which reads, conversions and writes it asks for, in which
  order, what it computes from the answers, and that the first failure ends
  it with that error.
* `app/lib.rs`: the script side: a runtime that answers the requests of a
  call. Converting script values to numbers and matrix components back to
  script numbers, and the rotation matrix of an angle, are floating point
  and stay there.
