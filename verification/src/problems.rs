//! The vector exercises of the tutorial, in the form that compiles. Every
//! one of them ends with the same vector: what it was given, or an empty one,
//! with the number 22 added at the end.

use vstd::prelude::*;

verus! {

/// The number that every exercise adds to its vector.
pub const FILL_VALUE: i32 = 22;

/// Takes the vector over, adds `FILL_VALUE` at its end and hands it back.
pub fn fill_vec(vec: Vec<i32>) -> (out: Vec<i32>)
    ensures
        out@ == vec@.push(FILL_VALUE),
{
    let mut vec = vec;
    vec.push(FILL_VALUE);
    vec
}

/// As `fill_vec`: the binding is made mutable inside the body.
pub fn fill_vec2(vec: Vec<i32>) -> (out: Vec<i32>)
    ensures
        out@ == vec@.push(FILL_VALUE),
{
    let mut vec = vec;
    vec.push(FILL_VALUE);
    vec
}

/// As `fill_vec`: the parameter itself is mutable, and the vector is handed
/// back once the number is in it.
pub fn fill_vec3(mut vec: Vec<i32>) -> (out: Vec<i32>)
    ensures
        out@ == vec@.push(FILL_VALUE),
{
    vec.push(FILL_VALUE);
    vec
}

/// As `fill_vec3`.
pub fn fill_vec4(mut vec: Vec<i32>) -> (out: Vec<i32>)
    ensures
        out@ == vec@.push(FILL_VALUE),
{
    vec.push(FILL_VALUE);
    vec
}

/// Starts from an empty vector: the result holds `FILL_VALUE` and nothing else.
pub fn fill_vec5() -> (out: Vec<i32>)
    ensures
        out@ == seq![FILL_VALUE],
{
    let mut vec: Vec<i32> = Vec::new();
    vec.push(FILL_VALUE);
    vec
}

} // verus!
