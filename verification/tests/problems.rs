use fplab_server::problems::{fill_vec, fill_vec2, fill_vec3, fill_vec4, fill_vec5, FILL_VALUE};

#[test]
fn fill_vec_appends_twenty_two() {
    assert_eq!(fill_vec(vec![1, 2]), vec![1, 2, 22]);
    assert_eq!(fill_vec(Vec::new()), vec![22]);
}

#[test]
fn fill_vec2_to_4_do_the_same() {
    assert_eq!(fill_vec2(vec![5]), vec![5, 22]);
    assert_eq!(fill_vec3(vec![22]), vec![22, 22]);
    assert_eq!(fill_vec4(Vec::new()), vec![22]);
}

#[test]
fn fill_vec5_holds_one_number() {
    assert_eq!(fill_vec5(), vec![FILL_VALUE]);
    assert_eq!(FILL_VALUE, 22);
}

#[test]
fn filled_vector_can_grow_further() {
    let mut vec1 = fill_vec(Vec::new());
    vec1.push(88);
    assert_eq!(vec1, vec![22, 88]);
}
