//! The skill registry.
//!
//! The registry is the table of the skills that were registered by name. It
//! hands out skill ids in ascending order, starting at zero, and never hands
//! one out twice: once the ids are used up it registers nothing more.

use crate::records::{skill_map_view, skill_seq_view, Skill, SkillView};
use std::collections::BTreeMap;
use vstd::prelude::*;

verus! {

/// The table of registered skills and the id that the next one gets.
pub struct SkillRegistry {
    next: u16,
    skills: BTreeMap<u16, Skill>,
}

/// What a [`SkillRegistry`] stands for.
pub struct RegistryView {
    /// The id of the next skill to be registered; `u16::MAX` is never handed
    /// out.
    pub next: u16,
    /// The registered skills by id.
    pub skills: Map<u16, SkillView>,
}

/// Whether the skill set is finite and holds each skill under the id that
/// the skill carries, so that no id occurs twice in it.
pub open spec fn keyed_by_id(skills: Map<u16, SkillView>) -> bool {
    &&& skills.dom().finite()
    &&& forall|id: u16| #[trigger] skills.contains_key(id) ==> skills[id].id == Some(id)
}

impl RegistryView {
    /// The registry before anything was registered.
    pub open spec fn empty() -> RegistryView {
        RegistryView { next: 0, skills: Map::empty() }
    }

    /// The registered ids are those below `next`, and each skill carries the id
    /// under which it is stored.
    pub open spec fn wf(self) -> bool {
        &&& forall|id: u16| #[trigger] self.skills.contains_key(id) <==> id < self.next
        &&& forall|id: u16| id < self.next ==> (#[trigger] self.skills[id]).id == Some(id)
    }

    /// Whether no id is left to hand out.
    pub open spec fn exhausted(self) -> bool {
        self.next == u16::MAX
    }

    /// The registry and the resolved set after one more request.
    ///
    /// A request with an id goes into the set as it is, under that id. A
    /// request without one is registered under the next id and goes into the
    /// set under it; it is dropped if the ids are used up.
    pub open spec fn resolve_one(
        self,
        resolved: Map<u16, SkillView>,
        request: SkillView,
    ) -> (RegistryView, Map<u16, SkillView>) {
        match request.id {
            Some(id) => (self, resolved.insert(id, request)),
            None => if self.exhausted() {
                (self, resolved)
            } else {
                let skill = SkillView { id: Some(self.next), name: request.name };
                (
                    RegistryView {
                        next: (self.next + 1) as u16,
                        skills: self.skills.insert(self.next, skill),
                    },
                    resolved.insert(self.next, skill),
                )
            },
        }
    }

    /// The registry after the requests were handled one after the other, and
    /// the set they resolve to.
    pub open spec fn resolve(self, requests: Seq<SkillView>) -> (
        RegistryView,
        Map<u16, SkillView>,
    )
        decreases requests.len(),
    {
        if requests.len() == 0 {
            (self, Map::empty())
        } else {
            let (registry, resolved) = self.resolve(requests.drop_last());
            registry.resolve_one(resolved, requests.last())
        }
    }

    /// The registered skills in ascending order of their ids.
    pub open spec fn listing(self) -> Seq<SkillView> {
        Seq::new(self.next as nat, |i: int| self.skills[i as u16])
    }

    /// Resolving requests keeps the registry well formed, keeps every skill
    /// that was registered before, and hands out ids from `next` upwards only.
    /// The resolved set holds each skill under the id that the skill carries.
    pub proof fn lemma_resolve(self, requests: Seq<SkillView>)
        requires
            self.wf(),
        ensures
            self.resolve(requests).0.wf(),
            self.next <= self.resolve(requests).0.next <= self.next + requests.len(),
            forall|id: u16|
                id < self.next ==> #[trigger] self.resolve(requests).0.skills[id]
                    == self.skills[id],
            keyed_by_id(self.resolve(requests).1),
        decreases requests.len(),
    {
        if requests.len() > 0 {
            self.lemma_resolve(requests.drop_last());
        }
    }
}

impl View for SkillRegistry {
    type V = RegistryView;

    closed spec fn view(&self) -> RegistryView {
        RegistryView { next: self.next, skills: skill_map_view(self.skills@) }
    }
}

impl SkillRegistry {
    /// The empty registry.
    pub fn new() -> (registry: SkillRegistry)
        ensures
            registry@ == RegistryView::empty(),
    {
        let registry = SkillRegistry { next: 0, skills: BTreeMap::new() };
        assert(registry@.skills =~= Map::empty());
        registry
    }

    /// The number of registered skills, which is the id of the next one.
    pub fn count(&self) -> (n: u16)
        ensures
            n == self@.next,
    {
        self.next
    }

    /// The skill registered under `id`.
    pub fn get(&self, id: u16) -> (skill: Option<&Skill>)
        ensures
            match skill {
                Some(s) => self@.skills.contains_key(id) && s@ == self@.skills[id],
                None => !self@.skills.contains_key(id),
            },
    {
        self.skills.get(&id)
    }
}

/// Resolves the requested skills into a skill set, registering those that
/// come without an id.
pub fn update_skill(registry: &mut SkillRegistry, skills: Vec<Skill>) -> (resolved: BTreeMap<
    u16,
    Skill,
>)
    ensures
        (final(registry)@, skill_map_view(resolved@)) == old(registry)@.resolve(
            skill_seq_view(skills@),
        ),
{
    let ghost start = registry@;
    let ghost requests = skill_seq_view(skills@);
    let mut resolved: BTreeMap<u16, Skill> = BTreeMap::new();
    let n: usize = skills.len();
    let mut i: usize = 0;
    assert(requests.take(0) =~= Seq::<SkillView>::empty());
    assert(skill_map_view(resolved@) =~= Map::empty());
    while i < n
        invariant
            i <= n,
            n == skills@.len(),
            requests == skill_seq_view(skills@),
            (registry@, skill_map_view(resolved@)) == start.resolve(requests.take(i as int)),
        decreases n - i,
    {
        let request = &skills[i];
        let ghost before = skill_map_view(resolved@);
        proof {
            assert(requests.take(i + 1).drop_last() =~= requests.take(i as int));
            assert(requests.take(i + 1).last() == request@);
        }
        match request.id {
            Some(id) => {
                resolved.insert(id, request.clone());
                assert(skill_map_view(resolved@) =~= before.insert(id, request@));
            },
            None => {
                if registry.next != u16::MAX {
                    let id: u16 = registry.next;
                    let ghost table = registry@.skills;
                    let ghost skill = SkillView { id: Some(id), name: request.name@ };
                    registry.skills.insert(id, Skill { id: Some(id), name: request.name.clone() });
                    resolved.insert(id, Skill { id: Some(id), name: request.name.clone() });
                    registry.next = id + 1;
                    assert(registry@.skills =~= table.insert(id, skill));
                    assert(skill_map_view(resolved@) =~= before.insert(id, skill));
                }
            },
        }
        i = i + 1;
    }
    assert(requests.take(n as int) =~= requests);
    resolved
}

} // verus!
