use assignment_backend::backend::Backend;
use assignment_backend::identity::Identity;
use assignment_backend::records::{skills_by_id, ApplicantParams, Skill};
use assignment_backend::skills::{update_skill, SkillRegistry};
use std::collections::BTreeMap;

fn named(name: &str) -> Skill {
    Skill { id: None, name: String::from(name) }
}

fn known(id: u16, name: &str) -> Skill {
    Skill { id: Some(id), name: String::from(name) }
}

#[test]
fn new_registry_is_empty() {
    let registry = SkillRegistry::new();
    assert_eq!(registry.count(), 0);
    assert_eq!(registry.get(0), None);
}

#[test]
fn names_get_ids_from_zero_upwards() {
    let mut registry = SkillRegistry::new();
    let resolved = update_skill(&mut registry, vec![named("rust"), named("verus"), named("z3")]);
    let mut expected = BTreeMap::new();
    expected.insert(0u16, known(0, "rust"));
    expected.insert(1u16, known(1, "verus"));
    expected.insert(2u16, known(2, "z3"));
    assert_eq!(resolved, expected);
    assert_eq!(registry.count(), 3);
    assert_eq!(registry.get(0), Some(&known(0, "rust")));
    assert_eq!(registry.get(1), Some(&known(1, "verus")));
    assert_eq!(registry.get(2), Some(&known(2, "z3")));
    assert_eq!(registry.get(3), None);
}

#[test]
fn same_name_in_two_calls_gets_two_ids() {
    let mut registry = SkillRegistry::new();
    let first = update_skill(&mut registry, vec![named("rust")]);
    let second = update_skill(&mut registry, vec![named("rust")]);
    assert_eq!(first.keys().copied().collect::<Vec<u16>>(), vec![0]);
    assert_eq!(second.keys().copied().collect::<Vec<u16>>(), vec![1]);
    assert_eq!(first.get(&0), Some(&known(0, "rust")));
    assert_eq!(second.get(&1), Some(&known(1, "rust")));
    assert_eq!(registry.count(), 2);
    assert_eq!(registry.get(0), Some(&known(0, "rust")));
    assert_eq!(registry.get(1), Some(&known(1, "rust")));
}

#[test]
fn same_name_twice_in_one_call_gets_two_ids() {
    let mut registry = SkillRegistry::new();
    let resolved = update_skill(&mut registry, vec![named("rust"), named("rust")]);
    assert_eq!(resolved.len(), 2);
    assert_eq!(registry.count(), 2);
}

#[test]
fn skill_with_id_is_copied_and_not_registered() {
    let mut registry = SkillRegistry::new();
    let resolved = update_skill(&mut registry, vec![known(40, "Forty"), known(7, "seven")]);
    let mut expected = BTreeMap::new();
    expected.insert(7u16, known(7, "seven"));
    expected.insert(40u16, known(40, "Forty"));
    assert_eq!(resolved, expected);
    assert_eq!(registry.count(), 0);
    assert_eq!(registry.get(7), None);
    assert_eq!(registry.get(40), None);
}

#[test]
fn later_request_for_an_id_replaces_the_earlier() {
    let mut registry = SkillRegistry::new();
    let resolved = update_skill(&mut registry, vec![known(5, "old"), known(5, "new")]);
    assert_eq!(resolved.len(), 1);
    assert_eq!(resolved.get(&5), Some(&known(5, "new")));
    let resolved = update_skill(&mut registry, vec![known(0, "given"), named("fresh")]);
    assert_eq!(resolved.len(), 1);
    assert_eq!(resolved.get(&0), Some(&known(0, "fresh")));
    assert_eq!(registry.get(0), Some(&known(0, "fresh")));
}

#[test]
fn empty_request_resolves_to_nothing() {
    let mut registry = SkillRegistry::new();
    assert_eq!(update_skill(&mut registry, vec![]), BTreeMap::new());
    assert_eq!(registry.count(), 0);
}

#[test]
fn registry_stops_when_ids_are_used_up() {
    let mut registry = SkillRegistry::new();
    let mut batch: Vec<Skill> = Vec::new();
    for _ in 0..u16::MAX {
        batch.push(named("s"));
    }
    let resolved = update_skill(&mut registry, batch);
    assert_eq!(resolved.len(), 65535);
    assert_eq!(registry.count(), u16::MAX);
    assert_eq!(registry.get(65534), Some(&known(65534, "s")));
    assert_eq!(registry.get(u16::MAX), None);

    let resolved = update_skill(&mut registry, vec![named("late"), known(3, "three")]);
    assert_eq!(resolved.len(), 1);
    assert_eq!(resolved.get(&3), Some(&known(3, "three")));
    assert_eq!(registry.count(), u16::MAX);
    assert_eq!(registry.get(u16::MAX), None);
    assert_eq!(registry.get(0), Some(&known(0, "s")));
    assert_eq!(registry.get(3), Some(&known(3, "s")));
}

#[test]
fn skills_are_listed_by_ascending_id() {
    let mut set: BTreeMap<u16, Skill> = BTreeMap::new();
    set.insert(300, known(300, "c"));
    set.insert(2, known(2, "a"));
    set.insert(65535, known(65535, "d"));
    set.insert(17, known(17, "b"));
    assert_eq!(
        skills_by_id(&set),
        vec![known(2, "a"), known(17, "b"), known(300, "c"), known(65535, "d")]
    );
    assert_eq!(skills_by_id(&BTreeMap::new()), vec![]);
}

#[test]
fn skill_list_windows() {
    let mut backend = Backend::new();
    let who = Identity::new(vec![1]);
    let params = ApplicantParams {
        first_name: String::new(),
        last_name: String::new(),
        nickname: String::new(),
        bio: String::new(),
    };
    let skills = vec![named("a"), named("b"), known(9, "nine"), named("c"), named("d")];
    assert_eq!(backend.create_applicant_profile(&who, 1, params, skills), Ok(()));
    assert_eq!(
        backend.get_skill_list(0, 10),
        Some(vec![known(0, "a"), known(1, "b"), known(2, "c"), known(3, "d")])
    );
    assert_eq!(backend.get_skill_list(1, 2), Some(vec![known(1, "b"), known(2, "c")]));
    assert_eq!(backend.get_skill_list(3, u16::MAX), Some(vec![known(3, "d")]));
    assert_eq!(backend.get_skill_list(4, 1), None);
    assert_eq!(backend.get_skill_list(0, 0), None);
    assert_eq!(backend.get_skill_list(u16::MAX, u16::MAX), None);
}
