//! The entity store: teams, creatures and the relations between teams.
use crate::assoc::{
    assoc_get, assoc_set, assoc_unique, lemma_assoc_get_absent, lemma_assoc_get_at,
    lemma_assoc_set,
};
use crate::entity::{unique_ids, Creature, CreatureView, EntityId, Property};
use crate::error::WeaselError;
use crate::team::{pair_key, relationship_key, Conclusion, Relation, Team, TeamView};
use vstd::prelude::*;

verus! {

/// The entity store as plain values.
pub struct EntitiesView {
    pub teams: Seq<TeamView>,
    pub creatures: Seq<CreatureView>,
    pub relations: Seq<((u64, u64), Relation)>,
}

impl EntitiesView {
    pub open spec fn empty() -> EntitiesView {
        EntitiesView { teams: Seq::empty(), creatures: Seq::empty(), relations: Seq::empty() }
    }

    pub open spec fn has_team(self, id: u64) -> bool {
        exists|i: int| 0 <= i < self.teams.len() && self.teams[i].id == id
    }

    /// The position of the team `id`; meaningful where `has_team(id)`.
    pub open spec fn team_idx(self, id: u64) -> int {
        choose|i: int| 0 <= i < self.teams.len() && self.teams[i].id == id
    }

    pub open spec fn has_creature(self, id: u64) -> bool {
        exists|i: int| 0 <= i < self.creatures.len() && self.creatures[i].id == id
    }

    /// The position of the creature `id`; meaningful where `has_creature(id)`.
    pub open spec fn creature_idx(self, id: u64) -> int {
        choose|i: int| 0 <= i < self.creatures.len() && self.creatures[i].id == id
    }

    /// The creature `id` belongs to the team `team`.
    pub open spec fn member_of(self, id: u64, team: u64) -> bool {
        exists|c: int|
            0 <= c < self.creatures.len() && self.creatures[c].id == id
                && self.creatures[c].team_id == team
    }

    /// An entity exists: a creature with its id (no objects are stored).
    pub open spec fn has_entity(self, id: EntityId) -> bool {
        match id {
            EntityId::Creature(c) => self.has_creature(c),
            EntityId::Object(_) => false,
        }
    }

    /// The team of an existing entity.
    pub open spec fn entity_team(self, id: EntityId) -> Option<u64> {
        match id {
            EntityId::Creature(c) => if self.has_creature(c) {
                Some(self.creatures[self.creature_idx(c)].team_id)
            } else {
                None
            },
            EntityId::Object(_) => None,
        }
    }

    /// The relation between two teams: kin for a team and itself, else the one stored
    /// for the pair in either order.
    pub open spec fn relation(self, first: u64, second: u64) -> Option<Relation> {
        if first == second {
            Some(Relation::Kin)
        } else {
            assoc_get(self.relations, pair_key(first, second))
        }
    }

    /// The store's invariant: ids are unique, every creature is listed exactly once
    /// by its own team, every listed member is a creature of that team, and the
    /// properties of each creature have distinct ids.
    pub open spec fn wf(self) -> bool {
        &&& forall|i: int, j: int|
            0 <= i < j < self.teams.len() ==> self.teams[i].id != self.teams[j].id
        &&& forall|i: int, j: int|
            0 <= i < j < self.creatures.len() ==> self.creatures[i].id != self.creatures[j].id
        &&& forall|t: int| 0 <= t < self.teams.len() ==> self.teams[t].creatures.no_duplicates()
        &&& forall|c: int|
            0 <= c < self.creatures.len() ==> #[trigger] self.has_team(self.creatures[c].team_id)
        &&& forall|c: int, t: int|
            0 <= c < self.creatures.len() && 0 <= t < self.teams.len()
                && self.teams[t].id == self.creatures[c].team_id
                ==> self.teams[t].creatures.contains(self.creatures[c].id)
        &&& forall|t: int, m: int|
            0 <= t < self.teams.len() && 0 <= m < self.teams[t].creatures.len()
                ==> self.member_of(self.teams[t].creatures[m], self.teams[t].id)
        &&& forall|c: int|
            0 <= c < self.creatures.len() ==> unique_ids(self.creatures[c].statistics)
                && unique_ids(self.creatures[c].abilities)
        &&& assoc_unique(self.relations)
    }

    pub open spec fn add_team(self, id: u64, objectives: u64) -> EntitiesView {
        EntitiesView {
            teams: self.teams.push(
                TeamView { id, creatures: Seq::empty(), conclusion: None, objectives },
            ),
            ..self
        }
    }

    pub open spec fn remove_team(self, id: u64) -> EntitiesView {
        EntitiesView { teams: self.teams.remove(self.team_idx(id)), ..self }
    }

    pub open spec fn add_creature(self, c: CreatureView) -> EntitiesView {
        let t = self.team_idx(c.team_id);
        EntitiesView {
            teams: self.teams.update(
                t,
                TeamView { creatures: self.teams[t].creatures.push(c.id), ..self.teams[t] },
            ),
            creatures: self.creatures.push(c),
            ..self
        }
    }

    pub open spec fn remove_creature(self, id: u64) -> EntitiesView {
        let c = self.creature_idx(id);
        let t = self.team_idx(self.creatures[c].team_id);
        let members = self.teams[t].creatures;
        let p = choose|p: int| 0 <= p < members.len() && members[p] == id;
        EntitiesView {
            teams: self.teams.update(t, TeamView { creatures: members.remove(p), ..self.teams[t] }),
            creatures: self.creatures.remove(c),
            ..self
        }
    }

    pub open spec fn set_conclusion(self, id: u64, conclusion: Option<Conclusion>) -> EntitiesView {
        let t = self.team_idx(id);
        EntitiesView {
            teams: self.teams.update(t, TeamView { conclusion, ..self.teams[t] }),
            ..self
        }
    }

    pub open spec fn set_objectives(self, id: u64, objectives: u64) -> EntitiesView {
        let t = self.team_idx(id);
        EntitiesView {
            teams: self.teams.update(t, TeamView { objectives, conclusion: None, ..self.teams[t] }),
            ..self
        }
    }

    pub open spec fn set_statistics(self, id: u64, s: Seq<Property>) -> EntitiesView {
        let c = self.creature_idx(id);
        EntitiesView {
            creatures: self.creatures.update(c, CreatureView { statistics: s, ..self.creatures[c] }),
            ..self
        }
    }

    pub open spec fn set_abilities(self, id: u64, s: Seq<Property>) -> EntitiesView {
        let c = self.creature_idx(id);
        EntitiesView {
            creatures: self.creatures.update(c, CreatureView { abilities: s, ..self.creatures[c] }),
            ..self
        }
    }

    /// The store after writing each relation of `pairs`, in order.
    pub open spec fn update_relations(self, pairs: Seq<(u64, u64, Relation)>) -> EntitiesView
        decreases pairs.len(),
    {
        if pairs.len() == 0 {
            self
        } else {
            let before = self.update_relations(pairs.drop_last());
            let (a, b, r) = pairs.last();
            EntitiesView {
                relations: assoc_set(before.relations, pair_key(a, b), r),
                ..before
            }
        }
    }
}

pub proof fn lemma_add_team_wf(v: EntitiesView, id: u64, objectives: u64)
    requires
        v.wf(),
        !v.has_team(id),
    ensures
        v.add_team(id, objectives).wf(),
{
    let w = v.add_team(id, objectives);
    let n = v.teams.len() as int;
    assert forall|c: int| 0 <= c < w.creatures.len() implies #[trigger] w.has_team(
        w.creatures[c].team_id,
    ) by {
        assert(v.has_team(v.creatures[c].team_id));
        let i = v.team_idx(v.creatures[c].team_id);
        assert(w.teams[i] == v.teams[i]);
    }
    assert forall|c: int, t: int|
        0 <= c < w.creatures.len() && 0 <= t < w.teams.len() && w.teams[t].id
            == w.creatures[c].team_id implies w.teams[t].creatures.contains(w.creatures[c].id) by {
        if t == n {
            assert(v.has_team(v.creatures[c].team_id));
        } else {
            assert(w.teams[t] == v.teams[t]);
        }
    }
    assert forall|t: int, m: int|
        0 <= t < w.teams.len() && 0 <= m < w.teams[t].creatures.len() implies w.member_of(
        w.teams[t].creatures[m],
        w.teams[t].id,
    ) by {
        assert(t != n);
        assert(w.teams[t] == v.teams[t]);
        assert(v.member_of(v.teams[t].creatures[m], v.teams[t].id));
        let k = choose|k: int| 0 <= k < v.creatures.len() && v.creatures[k].id == v.teams[t].creatures[m]
            && v.creatures[k].team_id == v.teams[t].id;
        assert(w.creatures[k] == v.creatures[k]);
    }
    assert forall|t: int| 0 <= t < w.teams.len() implies w.teams[t].creatures.no_duplicates() by {
        if t < n {
            assert(w.teams[t] == v.teams[t]);
        }
    }
}

pub proof fn lemma_remove_team_wf(v: EntitiesView, id: u64)
    requires
        v.wf(),
        v.has_team(id),
        v.teams[v.team_idx(id)].creatures.len() == 0,
    ensures
        v.remove_team(id).wf(),
{
    let w = v.remove_team(id);
    let ti = v.team_idx(id);
    assert forall|i: int| 0 <= i < w.teams.len() implies #[trigger] w.teams[i] == if i < ti {
        v.teams[i]
    } else {
        v.teams[i + 1]
    } by {}
    assert forall|c: int| 0 <= c < w.creatures.len() implies #[trigger] w.has_team(
        w.creatures[c].team_id,
    ) by {
        assert(v.has_team(v.creatures[c].team_id));
        let i = v.team_idx(v.creatures[c].team_id);
        assert(v.teams[i].creatures.contains(v.creatures[c].id));
        assert(i != ti);
        if i < ti {
            assert(w.teams[i] == v.teams[i]);
        } else {
            assert(w.teams[i - 1] == v.teams[i]);
        }
    }
    assert forall|c: int, t: int|
        0 <= c < w.creatures.len() && 0 <= t < w.teams.len() && w.teams[t].id
            == w.creatures[c].team_id implies w.teams[t].creatures.contains(w.creatures[c].id) by {
        if t < ti {
            assert(w.teams[t] == v.teams[t]);
        } else {
            assert(w.teams[t] == v.teams[t + 1]);
        }
    }
    assert forall|t: int, m: int|
        0 <= t < w.teams.len() && 0 <= m < w.teams[t].creatures.len() implies w.member_of(
        w.teams[t].creatures[m],
        w.teams[t].id,
    ) by {
        let t2 = if t < ti { t } else { t + 1 };
        assert(w.teams[t] == v.teams[t2]);
        assert(v.member_of(v.teams[t2].creatures[m], v.teams[t2].id));
        let k = choose|k: int| 0 <= k < v.creatures.len() && v.creatures[k].id == v.teams[t2].creatures[m]
            && v.creatures[k].team_id == v.teams[t2].id;
        assert(w.creatures[k] == v.creatures[k]);
    }
    assert forall|i: int, j: int| 0 <= i < j < w.teams.len() implies w.teams[i].id
        != w.teams[j].id by {
        if i < ti {
            assert(w.teams[i] == v.teams[i]);
        } else {
            assert(w.teams[i] == v.teams[i + 1]);
        }
        if j < ti {
            assert(w.teams[j] == v.teams[j]);
        } else {
            assert(w.teams[j] == v.teams[j + 1]);
        }
    }
    assert forall|t: int| 0 <= t < w.teams.len() implies w.teams[t].creatures.no_duplicates() by {
        if t < ti {
            assert(w.teams[t] == v.teams[t]);
        } else {
            assert(w.teams[t] == v.teams[t + 1]);
        }
    }
}

pub proof fn lemma_add_creature_wf(v: EntitiesView, c: CreatureView)
    requires
        v.wf(),
        !v.has_creature(c.id),
        v.has_team(c.team_id),
        unique_ids(c.statistics),
        unique_ids(c.abilities),
    ensures
        v.add_creature(c).wf(),
{
    let w = v.add_creature(c);
    let ti = v.team_idx(c.team_id);
    let n = v.creatures.len() as int;
    assert forall|i: int| 0 <= i < w.teams.len() implies #[trigger] w.teams[i].id == v.teams[i].id
        && (i != ti ==> w.teams[i] == v.teams[i]) by {}
    assert forall|i: int| 0 <= i < n implies #[trigger] w.creatures[i] == v.creatures[i] by {}
    assert(w.creatures[n] == c);
    assert(!v.teams[ti].creatures.contains(c.id)) by {
        if v.teams[ti].creatures.contains(c.id) {
            let m = choose|m: int| 0 <= m < v.teams[ti].creatures.len() && v.teams[ti].creatures[m] == c.id;
            assert(v.member_of(v.teams[ti].creatures[m], v.teams[ti].id));
        }
    }
    assert forall|t: int| 0 <= t < w.teams.len() implies w.teams[t].creatures.no_duplicates() by {
        if t == ti {
            let s = v.teams[ti].creatures;
            assert forall|i: int, j: int| 0 <= i < s.push(c.id).len() && 0 <= j < s.push(c.id).len() && i != j implies s.push(c.id)[i] != s.push(c.id)[j] by {
                if i < s.len() && j < s.len() {
                } else if i == s.len() {
                    assert(s.contains(s[j]));
                } else {
                    assert(s.contains(s[i]));
                }
            }
        }
    }
    assert forall|x: int| 0 <= x < w.creatures.len() implies #[trigger] w.has_team(
        w.creatures[x].team_id,
    ) by {
        if x < n {
            assert(v.has_team(v.creatures[x].team_id));
            let i = v.team_idx(v.creatures[x].team_id);
            assert(w.teams[i].id == v.teams[i].id);
        } else {
            assert(w.teams[ti].id == v.teams[ti].id);
        }
    }
    assert forall|x: int, t: int|
        0 <= x < w.creatures.len() && 0 <= t < w.teams.len() && w.teams[t].id
            == w.creatures[x].team_id implies w.teams[t].creatures.contains(w.creatures[x].id) by {
        if x == n {
            assert(t == ti);
            assert(w.teams[ti].creatures[w.teams[ti].creatures.len() - 1] == c.id);
        } else if t == ti {
            assert(v.teams[t].creatures.contains(v.creatures[x].id));
            let m = choose|m: int| 0 <= m < v.teams[t].creatures.len() && v.teams[t].creatures[m] == v.creatures[x].id;
            assert(w.teams[t].creatures[m] == v.teams[t].creatures[m]);
        } else {
            assert(w.teams[t] == v.teams[t]);
        }
    }
    assert forall|t: int, m: int|
        0 <= t < w.teams.len() && 0 <= m < w.teams[t].creatures.len() implies w.member_of(
        w.teams[t].creatures[m],
        w.teams[t].id,
    ) by {
        if t == ti && m == v.teams[ti].creatures.len() {
            assert(w.creatures[n].id == c.id);
        } else {
            assert(w.teams[t].creatures[m] == v.teams[t].creatures[m]);
            assert(v.member_of(v.teams[t].creatures[m], v.teams[t].id));
            let k = choose|k: int| 0 <= k < v.creatures.len() && v.creatures[k].id == v.teams[t].creatures[m]
                && v.creatures[k].team_id == v.teams[t].id;
            assert(w.creatures[k] == v.creatures[k]);
        }
    }
    assert forall|i: int, j: int| 0 <= i < j < w.creatures.len() implies w.creatures[i].id
        != w.creatures[j].id by {
        if j == n {
            assert(w.creatures[i] == v.creatures[i]);
        }
    }
}

pub proof fn lemma_remove_creature_wf(v: EntitiesView, id: u64)
    requires
        v.wf(),
        v.has_creature(id),
    ensures
        v.remove_creature(id).wf(),
        v.has_team(v.creatures[v.creature_idx(id)].team_id),
        v.teams[v.team_idx(v.creatures[v.creature_idx(id)].team_id)].creatures.contains(id),
{
    let w = v.remove_creature(id);
    let ci = v.creature_idx(id);
    let tid = v.creatures[ci].team_id;
    assert(v.has_team(tid));
    let ti = v.team_idx(tid);
    let members = v.teams[ti].creatures;
    assert(members.contains(id));
    let p = choose|p: int| 0 <= p < members.len() && members[p] == id;
    let nm = members.remove(p);
    assert(w.teams[ti].creatures == nm);
    assert forall|i: int| 0 <= i < w.teams.len() implies #[trigger] w.teams[i].id == v.teams[i].id
        && (i != ti ==> w.teams[i] == v.teams[i]) by {}
    assert forall|i: int| 0 <= i < w.creatures.len() implies #[trigger] w.creatures[i] == if i < ci {
        v.creatures[i]
    } else {
        v.creatures[i + 1]
    } by {}
    assert forall|k: int| 0 <= k < nm.len() implies #[trigger] nm[k] == if k < p {
        members[k]
    } else {
        members[k + 1]
    } by {}
    assert forall|t: int| 0 <= t < w.teams.len() implies w.teams[t].creatures.no_duplicates() by {
        if t == ti {
            assert forall|i: int, j: int| 0 <= i < nm.len() && 0 <= j < nm.len() && i != j implies nm[i] != nm[j] by {
                let i2 = if i < p { i } else { i + 1 };
                let j2 = if j < p { j } else { j + 1 };
                assert(nm[i] == members[i2] && nm[j] == members[j2]);
            }
        }
    }
    assert forall|x: int| 0 <= x < w.creatures.len() implies #[trigger] w.has_team(
        w.creatures[x].team_id,
    ) by {
        let x2 = if x < ci { x } else { x + 1 };
        assert(v.has_team(v.creatures[x2].team_id));
        let i = v.team_idx(v.creatures[x2].team_id);
        assert(w.teams[i].id == v.teams[i].id);
    }
    assert forall|x: int, t: int|
        0 <= x < w.creatures.len() && 0 <= t < w.teams.len() && w.teams[t].id
            == w.creatures[x].team_id implies w.teams[t].creatures.contains(w.creatures[x].id) by {
        let x2 = if x < ci { x } else { x + 1 };
        assert(w.creatures[x] == v.creatures[x2]);
        assert(v.teams[t].creatures.contains(v.creatures[x2].id));
        if t == ti {
            let m = choose|m: int| 0 <= m < members.len() && members[m] == v.creatures[x2].id;
            assert(m != p);
            let m2 = if m < p { m } else { m - 1 };
            assert(nm[m2] == members[m]);
        } else {
            assert(w.teams[t] == v.teams[t]);
        }
    }
    assert forall|t: int, m: int|
        0 <= t < w.teams.len() && 0 <= m < w.teams[t].creatures.len() implies w.member_of(
        w.teams[t].creatures[m],
        w.teams[t].id,
    ) by {
        let m2 = if t == ti && m >= p { m + 1 } else { m };
        assert(w.teams[t].creatures[m] == v.teams[t].creatures[m2]);
        assert(v.member_of(v.teams[t].creatures[m2], v.teams[t].id));
        let k = choose|k: int| 0 <= k < v.creatures.len() && v.creatures[k].id == v.teams[t].creatures[m2]
            && v.creatures[k].team_id == v.teams[t].id;
        assert(k != ci) by {
            if k == ci {
                if t == ti {
                    assert(m2 != p);
                } else {
                    assert(v.teams[t].id == tid);
                }
            }
        }
        let k2 = if k < ci { k } else { k - 1 };
        assert(w.creatures[k2] == v.creatures[k]);
    }
    assert forall|i: int, j: int| 0 <= i < j < w.creatures.len() implies w.creatures[i].id
        != w.creatures[j].id by {
        let i2 = if i < ci { i } else { i + 1 };
        let j2 = if j < ci { j } else { j + 1 };
        assert(w.creatures[i] == v.creatures[i2] && w.creatures[j] == v.creatures[j2]);
    }
    assert forall|x: int| 0 <= x < w.creatures.len() implies unique_ids(w.creatures[x].statistics)
        && unique_ids(w.creatures[x].abilities) by {
        let x2 = if x < ci { x } else { x + 1 };
        assert(w.creatures[x] == v.creatures[x2]);
    }
}

/// The invariant holds of a store with the same ids and memberships as a
/// well-formed one, whatever its other fields hold.
pub proof fn lemma_same_shape_wf(v: EntitiesView, w: EntitiesView)
    requires
        v.wf(),
        w.teams.len() == v.teams.len(),
        forall|i: int|
            #![trigger w.teams[i]]
            0 <= i < v.teams.len() ==> w.teams[i].id == v.teams[i].id && w.teams[i].creatures
                == v.teams[i].creatures,
        w.creatures.len() == v.creatures.len(),
        forall|c: int|
            #![trigger w.creatures[c]]
            0 <= c < v.creatures.len() ==> w.creatures[c].id == v.creatures[c].id
                && w.creatures[c].team_id == v.creatures[c].team_id && unique_ids(
                w.creatures[c].statistics,
            ) && unique_ids(w.creatures[c].abilities),
        assoc_unique(w.relations),
    ensures
        w.wf(),
{
    assert forall|c: int| 0 <= c < w.creatures.len() implies #[trigger] w.has_team(
        w.creatures[c].team_id,
    ) by {
        assert(v.has_team(v.creatures[c].team_id));
        let i = v.team_idx(v.creatures[c].team_id);
        assert(w.teams[i].id == v.teams[i].id);
    }
    assert forall|t: int, m: int|
        0 <= t < w.teams.len() && 0 <= m < w.teams[t].creatures.len() implies w.member_of(
        w.teams[t].creatures[m],
        w.teams[t].id,
    ) by {
        assert(w.teams[t].id == v.teams[t].id);
        assert(v.member_of(v.teams[t].creatures[m], v.teams[t].id));
        let k = choose|k: int| 0 <= k < v.creatures.len() && v.creatures[k].id == v.teams[t].creatures[m]
            && v.creatures[k].team_id == v.teams[t].id;
        assert(w.creatures[k].id == v.creatures[k].id);
    }
    assert forall|i: int, j: int| 0 <= i < j < w.teams.len() implies w.teams[i].id
        != w.teams[j].id by {
        assert(w.teams[i].id == v.teams[i].id && w.teams[j].id == v.teams[j].id);
    }
    assert forall|i: int, j: int| 0 <= i < j < w.creatures.len() implies w.creatures[i].id
        != w.creatures[j].id by {
        assert(w.creatures[i].id == v.creatures[i].id && w.creatures[j].id == v.creatures[j].id);
    }
    assert forall|c: int, t: int|
        0 <= c < w.creatures.len() && 0 <= t < w.teams.len() && w.teams[t].id
            == w.creatures[c].team_id implies w.teams[t].creatures.contains(w.creatures[c].id) by {
        assert(w.teams[t].id == v.teams[t].id && w.creatures[c].id == v.creatures[c].id);
    }
    assert forall|t: int| 0 <= t < w.teams.len() implies w.teams[t].creatures.no_duplicates() by {
        assert(w.teams[t].creatures == v.teams[t].creatures);
    }
}

pub proof fn lemma_update_relations_wf(v: EntitiesView, pairs: Seq<(u64, u64, Relation)>)
    requires
        v.wf(),
    ensures
        v.update_relations(pairs).wf(),
        v.update_relations(pairs).teams == v.teams,
        v.update_relations(pairs).creatures == v.creatures,
    decreases pairs.len(),
{
    if pairs.len() > 0 {
        lemma_update_relations_wf(v, pairs.drop_last());
        let b = v.update_relations(pairs.drop_last());
        let (x, y, r) = pairs.last();
        lemma_assoc_set(b.relations, pair_key(x, y), r);
        lemma_same_shape_wf(b, v.update_relations(pairs));
    }
}

/// Relations are symmetric, and every team is kin to itself.
pub proof fn lemma_relation_symmetric(v: EntitiesView, first: u64, second: u64)
    ensures
        v.relation(first, second) == v.relation(second, first),
        v.relation(first, first) == Some(Relation::Kin),
{
}

/// Every creature is listed exactly once by the team it names, and every id that
/// a team lists is a creature of that team.
pub proof fn lemma_team_membership(v: EntitiesView)
    requires
        v.wf(),
    ensures
        forall|c: int|
            #![trigger v.creatures[c]]
            0 <= c < v.creatures.len() ==> v.has_team(v.creatures[c].team_id) && {
                let members = v.teams[v.team_idx(v.creatures[c].team_id)].creatures;
                exists|p: int|
                    0 <= p < members.len() && members[p] == v.creatures[c].id && forall|q: int|
                        0 <= q < members.len() && q != p ==> members[q] != v.creatures[c].id
            },
        forall|t: int, m: int|
            0 <= t < v.teams.len() && 0 <= m < v.teams[t].creatures.len() ==> v.member_of(
                #[trigger] v.teams[t].creatures[m],
                v.teams[t].id,
            ),
{
    assert forall|c: int|
        #![trigger v.creatures[c]]
        0 <= c < v.creatures.len() implies v.has_team(v.creatures[c].team_id) && {
            let members = v.teams[v.team_idx(v.creatures[c].team_id)].creatures;
            exists|p: int|
                0 <= p < members.len() && members[p] == v.creatures[c].id && forall|q: int|
                    0 <= q < members.len() && q != p ==> members[q] != v.creatures[c].id
        } by {
        assert(v.has_team(v.creatures[c].team_id));
        let t = v.team_idx(v.creatures[c].team_id);
        let members = v.teams[t].creatures;
        assert(members.contains(v.creatures[c].id));
        let p = choose|p: int| 0 <= p < members.len() && members[p] == v.creatures[c].id;
        assert(members.no_duplicates());
    }
}

/// Holds teams, creatures and relations, and keeps them consistent.
pub struct Entities {
    teams: Vec<Team>,
    creatures: Vec<Creature>,
    relations: Vec<((u64, u64), Relation)>,
}

impl View for Entities {
    type V = EntitiesView;

    closed spec fn view(&self) -> EntitiesView {
        EntitiesView {
            teams: self.teams@.map_values(|t: Team| t@),
            creatures: self.creatures@.map_values(|c: Creature| c@),
            relations: self.relations@,
        }
    }
}

impl Entities {
    /// Creates an empty store.
    pub fn new() -> (r: Entities)
        ensures
            r@ == EntitiesView::empty(),
            r@.wf(),
    {
        let r = Entities { teams: Vec::new(), creatures: Vec::new(), relations: Vec::new() };
        assert(r@.teams =~= Seq::empty());
        assert(r@.creatures =~= Seq::empty());
        r
    }

    /// Returns the position of the team `id`.
    pub fn find_team(&self, id: u64) -> (r: Option<usize>)
        requires
            self@.wf(),
        ensures
            r is None <==> !self@.has_team(id),
            r matches Some(i) ==> i == self@.team_idx(id) && i < self@.teams.len()
                && self@.teams[i as int].id == id,
    {
        let mut i: usize = 0;
        while i < self.teams.len()
            invariant
                i <= self.teams.len(),
                self@.wf(),
                forall|j: int| 0 <= j < i ==> self@.teams[j].id != id,
            decreases self.teams.len() - i,
        {
            if self.teams[i].id == id {
                assert(self@.teams[i as int].id == id);
                assert(self@.has_team(id));
                return Some(i);
            }
            i += 1;
        }
        None
    }

    /// Returns the position of the creature `id`.
    pub fn find_creature(&self, id: u64) -> (r: Option<usize>)
        requires
            self@.wf(),
        ensures
            r is None <==> !self@.has_creature(id),
            r matches Some(i) ==> i == self@.creature_idx(id) && i < self@.creatures.len()
                && self@.creatures[i as int].id == id,
    {
        let mut i: usize = 0;
        while i < self.creatures.len()
            invariant
                i <= self.creatures.len(),
                self@.wf(),
                forall|j: int| 0 <= j < i ==> self@.creatures[j].id != id,
            decreases self.creatures.len() - i,
        {
            if self.creatures[i].id == id {
                assert(self@.creatures[i as int].id == id);
                assert(self@.has_creature(id));
                return Some(i);
            }
            i += 1;
        }
        None
    }

    /// Returns the team with the given id.
    pub fn team(&self, id: u64) -> (r: Option<&Team>)
        requires
            self@.wf(),
        ensures
            r is None <==> !self@.has_team(id),
            r matches Some(t) ==> t@ == self@.teams[self@.team_idx(id)],
    {
        match self.find_team(id) {
            Some(i) => Some(&self.teams[i]),
            None => None,
        }
    }

    /// Returns the creature with the given id.
    pub fn creature(&self, id: u64) -> (r: Option<&Creature>)
        requires
            self@.wf(),
        ensures
            r is None <==> !self@.has_creature(id),
            r matches Some(c) ==> c@ == self@.creatures[self@.creature_idx(id)],
    {
        match self.find_creature(id) {
            Some(i) => Some(&self.creatures[i]),
            None => None,
        }
    }

    /// Returns the teams in the order in which they were added.
    pub fn teams(&self) -> (r: &Vec<Team>)
        ensures
            r@.map_values(|t: Team| t@) == self@.teams,
    {
        &self.teams
    }

    /// Returns the creatures in the order in which they were added.
    pub fn creatures(&self) -> (r: &Vec<Creature>)
        ensures
            r@.map_values(|c: Creature| c@) == self@.creatures,
    {
        &self.creatures
    }

    /// Inserts an empty team with the given objectives.
    pub fn add_team(&mut self, id: u64, objectives: u64) -> (r: Result<(), WeaselError>)
        requires
            old(self)@.wf(),
        ensures
            final(self)@.wf(),
            r is Err <==> old(self)@.has_team(id),
            r matches Err(e) ==> e == WeaselError::DuplicatedTeam(id) && final(self)@ == old(self)@,
            r is Ok ==> final(self)@ == old(self)@.add_team(id, objectives),
    {
        if self.find_team(id).is_some() {
            return Err(WeaselError::DuplicatedTeam(id));
        }
        proof {
            lemma_add_team_wf(self@, id, objectives);
        }
        let ghost before = self@;
        self.teams.push(Team { id, creatures: Vec::new(), conclusion: None, objectives });
        assert(self@.teams =~= before.add_team(id, objectives).teams);
        Ok(())
    }

    /// Removes a team. A team that exists must be empty.
    pub fn remove_team(&mut self, id: u64) -> (r: Result<(), WeaselError>)
        requires
            old(self)@.wf(),
            old(self)@.has_team(id) ==> old(self)@.teams[old(self)@.team_idx(id)].creatures.len()
                == 0,
        ensures
            final(self)@.wf(),
            r is Err <==> !old(self)@.has_team(id),
            r matches Err(e) ==> e == WeaselError::TeamNotFound(id) && final(self)@ == old(self)@,
            r is Ok ==> final(self)@ == old(self)@.remove_team(id),
    {
        match self.find_team(id) {
            None => Err(WeaselError::TeamNotFound(id)),
            Some(i) => {
                proof {
                    lemma_remove_team_wf(self@, id);
                }
                let ghost before = self@;
                self.teams.remove(i);
                assert(self@.teams =~= before.remove_team(id).teams);
                Ok(())
            },
        }
    }

    /// Inserts a creature and lists it in its team.
    pub fn add_creature(&mut self, creature: Creature) -> (r: Result<(), WeaselError>)
        requires
            old(self)@.wf(),
            unique_ids(creature@.statistics),
            unique_ids(creature@.abilities),
        ensures
            final(self)@.wf(),
            r is Err <==> old(self)@.has_creature(creature@.id) || !old(self)@.has_team(
                creature@.team_id,
            ),
            r matches Err(e) ==> final(self)@ == old(self)@ && e == if old(self)@.has_creature(
                creature@.id,
            ) {
                WeaselError::DuplicatedCreature(creature@.id)
            } else {
                WeaselError::TeamNotFound(creature@.team_id)
            },
            r is Ok ==> final(self)@ == old(self)@.add_creature(creature@),
    {
        if self.find_creature(creature.id).is_some() {
            return Err(WeaselError::DuplicatedCreature(creature.id));
        }
        match self.find_team(creature.team_id) {
            None => Err(WeaselError::TeamNotFound(creature.team_id)),
            Some(t) => {
                proof {
                    lemma_add_creature_wf(self@, creature@);
                }
                let ghost before = self@;
                let mut team = self.teams.remove(t);
                team.creatures.push(creature.id);
                self.teams.insert(t, team);
                self.creatures.push(creature);
                assert(self@.teams =~= before.add_creature(creature@).teams);
                assert(self@.creatures =~= before.add_creature(creature@).creatures);
                Ok(())
            },
        }
    }

    /// Removes a creature from the store and from its team.
    pub fn remove_creature(&mut self, id: u64) -> (r: Result<(), WeaselError>)
        requires
            old(self)@.wf(),
        ensures
            final(self)@.wf(),
            r is Err <==> !old(self)@.has_creature(id),
            r matches Err(e) ==> e == WeaselError::CreatureNotFound(id) && final(self)@
                == old(self)@,
            r is Ok ==> final(self)@ == old(self)@.remove_creature(id),
    {
        let c = match self.find_creature(id) {
            None => {
                return Err(WeaselError::CreatureNotFound(id));
            },
            Some(c) => c,
        };
        proof {
            lemma_remove_creature_wf(self@, id);
        }
        let team_id = self.creatures[c].team_id;
        let t = match self.find_team(team_id) {
            None => {
                assert(false);
                return Err(WeaselError::TeamNotFound(team_id));
            },
            Some(t) => t,
        };
        let ghost before = self@;
        let ghost members = before.teams[t as int].creatures;
        let len = self.teams[t].creatures.len();
        let mut p: usize = 0;
        loop
            invariant
                len == members.len(),
                self@ == before,
                t < self@.teams.len(),
                members == self@.teams[t as int].creatures,
                members.contains(id),
                p <= members.len(),
                forall|j: int| 0 <= j < p ==> members[j] != id,
            ensures
                p < members.len() && members[p as int] == id,
            decreases members.len() - p,
        {
            assert(p < members.len()) by {
                let q = choose|q: int| 0 <= q < members.len() && members[q] == id;
            }
            if self.teams[t].creatures[p] == id {
                break;
            }
            p += 1;
        }
        assert(members.no_duplicates());
        let ghost q = choose|q: int| 0 <= q < members.len() && members[q] == id;
        assert(q == p);
        let mut team = self.teams.remove(t);
        team.creatures.remove(p);
        self.teams.insert(t, team);
        self.creatures.remove(c);
        assert(self@.teams =~= before.remove_creature(id).teams);
        assert(self@.creatures =~= before.remove_creature(id).creatures);
        Ok(())
    }

    /// Sets the conclusion of an existing team.
    pub fn set_conclusion(&mut self, id: u64, conclusion: Option<Conclusion>)
        requires
            old(self)@.wf(),
            old(self)@.has_team(id),
        ensures
            final(self)@.wf(),
            final(self)@ == old(self)@.set_conclusion(id, conclusion),
    {
        let t = match self.find_team(id) {
            Some(t) => t,
            None => {
                assert(false);
                return;
            },
        };
        let ghost before = self@;
        let mut team = self.teams.remove(t);
        team.conclusion = conclusion;
        self.teams.insert(t, team);
        assert(self@.teams =~= before.set_conclusion(id, conclusion).teams);
        proof {
            lemma_same_shape_wf(before, self@);
        }
    }

    /// Replaces the objectives of an existing team and clears its conclusion.
    pub fn set_objectives(&mut self, id: u64, objectives: u64)
        requires
            old(self)@.wf(),
            old(self)@.has_team(id),
        ensures
            final(self)@.wf(),
            final(self)@ == old(self)@.set_objectives(id, objectives),
    {
        let t = match self.find_team(id) {
            Some(t) => t,
            None => {
                assert(false);
                return;
            },
        };
        let ghost before = self@;
        let mut team = self.teams.remove(t);
        team.objectives = objectives;
        team.conclusion = None;
        self.teams.insert(t, team);
        assert(self@.teams =~= before.set_objectives(id, objectives).teams);
        proof {
            lemma_same_shape_wf(before, self@);
        }
    }

    /// Replaces the statistics of an existing creature.
    pub fn set_statistics(&mut self, id: u64, statistics: Vec<Property>)
        requires
            old(self)@.wf(),
            old(self)@.has_creature(id),
            unique_ids(statistics@),
        ensures
            final(self)@.wf(),
            final(self)@ == old(self)@.set_statistics(id, statistics@),
    {
        let c = match self.find_creature(id) {
            Some(c) => c,
            None => {
                assert(false);
                return;
            },
        };
        let ghost before = self@;
        let ghost s = statistics@;
        let mut creature = self.creatures.remove(c);
        creature.statistics = statistics;
        self.creatures.insert(c, creature);
        assert(self@.creatures =~= before.set_statistics(id, s).creatures);
        proof {
            lemma_same_shape_wf(before, self@);
        }
    }

    /// Replaces the abilities of an existing creature.
    pub fn set_abilities(&mut self, id: u64, abilities: Vec<Property>)
        requires
            old(self)@.wf(),
            old(self)@.has_creature(id),
            unique_ids(abilities@),
        ensures
            final(self)@.wf(),
            final(self)@ == old(self)@.set_abilities(id, abilities@),
    {
        let c = match self.find_creature(id) {
            Some(c) => c,
            None => {
                assert(false);
                return;
            },
        };
        let ghost before = self@;
        let ghost s = abilities@;
        let mut creature = self.creatures.remove(c);
        creature.abilities = abilities;
        self.creatures.insert(c, creature);
        assert(self@.creatures =~= before.set_abilities(id, s).creatures);
        proof {
            lemma_same_shape_wf(before, self@);
        }
    }

    /// Writes each relation of `pairs`, in order, under the order-independent key
    /// of its two teams.
    pub fn update_relations(&mut self, pairs: &Vec<(u64, u64, Relation)>)
        requires
            old(self)@.wf(),
        ensures
            final(self)@.wf(),
            final(self)@ == old(self)@.update_relations(pairs@),
    {
        let ghost start = self@;
        let mut i: usize = 0;
        while i < pairs.len()
            invariant
                i <= pairs.len(),
                start.wf(),
                self@ == start.update_relations(pairs@.take(i as int)),
                self@.wf(),
            decreases pairs.len() - i,
        {
            let (a, b, rel) = pairs[i];
            let key = relationship_key(a, b);
            assert(pairs@.take(i + 1).drop_last() == pairs@.take(i as int));
            let ghost before = self@;
            proof {
                lemma_update_relations_wf(start, pairs@.take(i + 1));
                lemma_assoc_set(before.relations, key, rel);
            }
            let found = self.find_relation(key);
            if let Some(j) = found {
                let ghost q = choose|q: int| 0 <= q < before.relations.len() && before.relations[q].0 == key;
                assert(q == j);
                self.relations.remove(j);
                self.relations.insert(j, (key, rel));
                assert(self.relations@ =~= assoc_set(before.relations, key, rel));
            } else {
                self.relations.push((key, rel));
                assert(self.relations@ =~= assoc_set(before.relations, key, rel));
            }
            i += 1;
        }
        assert(pairs@.take(pairs.len() as int) == pairs@);
    }

    fn find_relation(&self, key: (u64, u64)) -> (r: Option<usize>)
        ensures
            r is None ==> forall|k: int| 0 <= k < self.relations@.len() ==> self.relations@[k].0 != key,
            r matches Some(j) ==> j < self.relations@.len() && self.relations@[j as int].0 == key,
    {
        let mut j: usize = 0;
        while j < self.relations.len()
            invariant
                j <= self.relations.len(),
                forall|k: int| 0 <= k < j ==> self.relations@[k].0 != key,
            decreases self.relations.len() - j,
        {
            if self.relations[j].0 .0 == key.0 && self.relations[j].0 .1 == key.1 {
                assert(self.relations@[j as int].0 == key);
                return Some(j);
            }
            j += 1;
        }
        None
    }

    /// Returns the relation between two teams, in either order.
    pub fn relation(&self, first: u64, second: u64) -> (r: Option<Relation>)
        requires
            self@.wf(),
        ensures
            r == self@.relation(first, second),
    {
        if first == second {
            return Some(Relation::Kin);
        }
        let key = relationship_key(first, second);
        let mut i: usize = 0;
        while i < self.relations.len()
            invariant
                i <= self.relations.len(),
                self@.wf(),
                key == pair_key(first, second),
                first != second,
                forall|j: int| 0 <= j < i ==> self.relations@[j].0 != key,
            decreases self.relations.len() - i,
        {
            if self.relations[i].0 .0 == key.0 && self.relations[i].0 .1 == key.1 {
                proof {
                    assert(self.relations@[i as int].0 == key);
                    lemma_assoc_get_at(self.relations@, i as int);
                }
                return Some(self.relations[i].1);
            }
            i += 1;
        }
        proof {
            lemma_assoc_get_absent::<(u64, u64), Relation>(self.relations@, key);
        }
        None
    }
}

} // verus!
