use stepcheck::requirement::Requirement;

#[test]
fn single_name_normalizes_to_one_element() {
    let r = Requirement::One(String::from("db"));
    assert_eq!(r.to_vec(), vec![String::from("db")]);
}

#[test]
fn list_form_normalizes_identically() {
    let one = Requirement::One(String::from("db"));
    let many = Requirement::Many(vec![String::from("db")]);
    assert_eq!(one.to_vec(), many.to_vec());
}

#[test]
fn list_order_is_kept() {
    let many = Requirement::Many(vec![
        String::from("a"),
        String::from("b"),
        String::from("c"),
    ]);
    assert_eq!(
        many.to_vec(),
        vec![String::from("a"), String::from("b"), String::from("c")]
    );
}
