use assignment_backend::pagination::into_page;
use assignment_backend::records::Skill;

#[test]
fn empty_result_is_no_page() {
    let nothing: Vec<Skill> = Vec::new();
    assert_eq!(into_page(nothing), None);
}

#[test]
fn populated_result_is_a_page() {
    let one = vec![Skill { id: Some(1), name: String::from("one") }];
    assert_eq!(into_page(one), Some(vec![Skill { id: Some(1), name: String::from("one") }]));
}
