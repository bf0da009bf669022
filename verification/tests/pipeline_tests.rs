use grepcells::pipeline::even_squares;

#[test]
fn even_squares_of_one_to_eight() {
    let v: Vec<u8> = vec![1, 2, 3, 4, 5, 6, 7, 8];
    assert_eq!(even_squares(&v), vec![4, 16, 36, 64]);
}

#[test]
fn even_squares_of_empty_is_empty() {
    let v: Vec<u8> = vec![];
    assert_eq!(even_squares(&v), Vec::<u8>::new());
}

#[test]
fn even_squares_wrap_modulo_256() {
    let v: Vec<u8> = vec![20, 21];
    assert_eq!(even_squares(&v), vec![144]);
}
