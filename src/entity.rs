//! Entities of a battle: their ids, creatures, and the statistics and abilities
//! that creatures hold.
use vstd::prelude::*;

verus! {

/// Identifies any entity of a battle.
#[derive(Clone, Copy, Debug, PartialEq, Eq, Structural)]
pub enum EntityId {
    /// A creature: a character and an actor.
    Creature(u64),
    /// An inanimate object: a character that cannot act.
    Object(u64),
}

impl EntityId {
    /// Creatures are actors; objects are not.
    pub open spec fn spec_is_actor(self) -> bool {
        self is Creature
    }

    /// Returns true when this entity can act during a round.
    pub fn is_actor(&self) -> (r: bool)
        ensures
            r == self.spec_is_actor(),
    {
        match self {
            EntityId::Creature(_) => true,
            EntityId::Object(_) => false,
        }
    }
}

/// A statistic or an ability: an id and a value that game rules interpret.
#[derive(Clone, Copy, Debug, PartialEq, Eq, Structural)]
pub struct Property {
    pub id: u64,
    pub value: i64,
}

/// A property of a character, such as health.
pub type Statistic = Property;

/// An action that an actor can activate.
pub type Ability = Property;

/// A directive from a rule hook asking for a structural change.
#[derive(Clone, Copy, Debug, PartialEq, Eq, Structural)]
pub enum Transmutation {
    /// The entity must be removed from the battle.
    Removal,
}

/// True when some property of `s` has id `id`.
pub open spec fn has_id(s: Seq<Property>, id: u64) -> bool {
    exists|i: int| 0 <= i < s.len() && s[i].id == id
}

/// No two properties of `s` share an id.
pub open spec fn unique_ids(s: Seq<Property>) -> bool {
    forall|i: int, j: int| 0 <= i < j < s.len() ==> s[i].id != s[j].id
}

/// The properties of `cur` whose id also occurs in `next`, in their order.
pub open spec fn kept(cur: Seq<Property>, next: Seq<Property>) -> Seq<Property>
    decreases cur.len(),
{
    if cur.len() == 0 {
        Seq::empty()
    } else if has_id(next, cur.last().id) {
        kept(cur.drop_last(), next).push(cur.last())
    } else {
        kept(cur.drop_last(), next)
    }
}

/// The first property of `next` for each id that `cur` does not hold, in order.
pub open spec fn fresh(next: Seq<Property>, cur: Seq<Property>) -> Seq<Property>
    decreases next.len(),
{
    if next.len() == 0 {
        Seq::empty()
    } else {
        let f = fresh(next.drop_last(), cur);
        if has_id(cur, next.last().id) || has_id(f, next.last().id) {
            f
        } else {
            f.push(next.last())
        }
    }
}

/// The set of properties after a regeneration from `next`: entries of `cur` whose
/// id `next` also holds stay as they are, the others go, and the entries of `next`
/// with a new id are added.
pub open spec fn regenerated(cur: Seq<Property>, next: Seq<Property>) -> Seq<Property> {
    kept(cur, next) + fresh(next, cur)
}

proof fn lemma_kept(cur: Seq<Property>, next: Seq<Property>)
    ensures
        forall|x: u64| #[trigger]
            has_id(kept(cur, next), x) <==> has_id(cur, x) && has_id(next, x),
        forall|p: Property| #[trigger] kept(cur, next).contains(p) ==> cur.contains(p),
        unique_ids(cur) ==> unique_ids(kept(cur, next)),
    decreases cur.len(),
{
    if cur.len() > 0 {
        let d = cur.drop_last();
        lemma_kept(d, next);
        let k = kept(cur, next);
        let kd = kept(d, next);
        assert forall|x: u64| #[trigger] has_id(k, x) <==> has_id(cur, x) && has_id(next, x) by {
            if has_id(cur, x) && has_id(next, x) {
                let i = choose|i: int| 0 <= i < cur.len() && cur[i].id == x;
                if i < cur.len() - 1 {
                    assert(d[i] == cur[i]);
                    assert(has_id(d, x));
                    assert(has_id(kd, x));
                    let j = choose|j: int| 0 <= j < kd.len() && kd[j].id == x;
                    assert(k[j] == kd[j]);
                } else {
                    assert(k[k.len() - 1] == cur.last());
                }
            }
            if has_id(k, x) {
                let j = choose|j: int| 0 <= j < k.len() && k[j].id == x;
                if j < kd.len() {
                    assert(kd[j] == k[j]);
                    assert(has_id(kd, x));
                    assert(has_id(d, x));
                    let i = choose|i: int| 0 <= i < d.len() && d[i].id == x;
                    assert(cur[i] == d[i]);
                } else {
                    assert(cur[cur.len() - 1] == cur.last());
                }
            }
        }
        assert forall|p: Property| #[trigger] k.contains(p) implies cur.contains(p) by {
            let j = choose|j: int| 0 <= j < k.len() && k[j] == p;
            if j < kd.len() {
                assert(kd[j] == k[j]);
                assert(kd.contains(p));
                let i = choose|i: int| 0 <= i < d.len() && d[i] == p;
                assert(cur[i] == d[i]);
            } else {
                assert(cur[cur.len() - 1] == p);
            }
        }
        if unique_ids(cur) {
            assert(unique_ids(d)) by {
                assert forall|i: int, j: int| 0 <= i < j < d.len() implies d[i].id != d[j].id by {
                    assert(d[i] == cur[i] && d[j] == cur[j]);
                }
            }
            if has_id(next, cur.last().id) {
                assert forall|i: int, j: int| 0 <= i < j < k.len() implies k[i].id != k[j].id by {
                    if j == k.len() - 1 {
                        assert(k[i] == kd[i]);
                        assert(kd.contains(kd[i]));
                        let m = choose|m: int| 0 <= m < cur.len() && cur[m] == kd[i];
                        if m == cur.len() - 1 {
                            assert(d.contains(kd[i])) by {
                                let n = choose|n: int| 0 <= n < d.len() && d[n] == kd[i];
                            }
                        }
                    } else {
                        assert(k[i] == kd[i] && k[j] == kd[j]);
                    }
                }
            }
        }
    }
}

proof fn lemma_fresh(next: Seq<Property>, cur: Seq<Property>)
    ensures
        forall|x: u64| #[trigger]
            has_id(fresh(next, cur), x) <==> has_id(next, x) && !has_id(cur, x),
        forall|p: Property| #[trigger] fresh(next, cur).contains(p) ==> next.contains(p),
        unique_ids(fresh(next, cur)),
    decreases next.len(),
{
    if next.len() > 0 {
        let d = next.drop_last();
        lemma_fresh(d, cur);
        let f = fresh(next, cur);
        let fd = fresh(d, cur);
        let last = next.last();
        let added = !(has_id(cur, last.id) || has_id(fd, last.id));
        assert forall|x: u64| #[trigger] has_id(f, x) <==> has_id(next, x) && !has_id(cur, x) by {
            if has_id(next, x) && !has_id(cur, x) {
                let i = choose|i: int| 0 <= i < next.len() && next[i].id == x;
                if i < next.len() - 1 {
                    assert(d[i] == next[i]);
                    assert(has_id(d, x));
                    assert(has_id(fd, x));
                    let j = choose|j: int| 0 <= j < fd.len() && fd[j].id == x;
                    if added {
                        assert(f[j] == fd[j]);
                    }
                } else if added {
                    assert(f[f.len() - 1] == last);
                }
            }
            if has_id(f, x) {
                let j = choose|j: int| 0 <= j < f.len() && f[j].id == x;
                if j < fd.len() {
                    assert(fd[j] == f[j]);
                    assert(has_id(fd, x));
                    assert(has_id(d, x));
                    let i = choose|i: int| 0 <= i < d.len() && d[i].id == x;
                    assert(next[i] == d[i]);
                } else {
                    assert(next[next.len() - 1] == last);
                }
            }
        }
        assert forall|p: Property| #[trigger] f.contains(p) implies next.contains(p) by {
            let j = choose|j: int| 0 <= j < f.len() && f[j] == p;
            if j < fd.len() {
                assert(fd[j] == f[j]);
                assert(fd.contains(p));
                let i = choose|i: int| 0 <= i < d.len() && d[i] == p;
                assert(next[i] == d[i]);
            } else {
                assert(next[next.len() - 1] == p);
            }
        }
        if added {
            assert forall|i: int, j: int| 0 <= i < j < f.len() implies f[i].id != f[j].id by {
                assert(f[i] == fd[i]);
                if j < f.len() - 1 {
                    assert(f[j] == fd[j]);
                }
            }
        }
    }
}

/// Regeneration: the ids of the result are exactly those of `next`, and every
/// entry whose id `cur` already held is the entry that `cur` held.
pub proof fn lemma_regenerated(cur: Seq<Property>, next: Seq<Property>)
    requires
        unique_ids(cur),
    ensures
        forall|x: u64| #[trigger] has_id(regenerated(cur, next), x) <==> has_id(next, x),
        forall|p: Property|
            #[trigger] regenerated(cur, next).contains(p) && has_id(cur, p.id) ==> cur.contains(p),
        unique_ids(regenerated(cur, next)),
{
    lemma_kept(cur, next);
    lemma_fresh(next, cur);
    let k = kept(cur, next);
    let f = fresh(next, cur);
    let r = regenerated(cur, next);
    assert forall|x: u64| #[trigger] has_id(r, x) <==> has_id(next, x) by {
        if has_id(r, x) {
            let i = choose|i: int| 0 <= i < r.len() && r[i].id == x;
            if i < k.len() {
                assert(r[i] == k[i]);
                assert(has_id(k, x));
            } else {
                assert(r[i] == f[i - k.len()]);
                assert(has_id(f, x));
            }
        }
        if has_id(next, x) {
            if has_id(cur, x) {
                assert(has_id(k, x));
                let j = choose|j: int| 0 <= j < k.len() && k[j].id == x;
                assert(r[j] == k[j]);
            } else {
                assert(has_id(f, x));
                let j = choose|j: int| 0 <= j < f.len() && f[j].id == x;
                assert(r[k.len() + j] == f[j]);
            }
        }
    }
    assert forall|p: Property| #[trigger] r.contains(p) && has_id(cur, p.id) implies cur.contains(p) by {
        let i = choose|i: int| 0 <= i < r.len() && r[i] == p;
        if i < k.len() {
            assert(r[i] == k[i]);
            assert(k.contains(p));
        } else {
            assert(r[i] == f[i - k.len()]);
            assert(has_id(f, p.id)) by {
                assert(f[i - k.len()].id == p.id);
            }
        }
    }
    assert forall|i: int, j: int| 0 <= i < j < r.len() implies r[i].id != r[j].id by {
        if j < k.len() {
            assert(r[i] == k[i] && r[j] == k[j]);
        } else if i >= k.len() {
            assert(r[i] == f[i - k.len()] && r[j] == f[j - k.len()]);
        } else {
            assert(r[i] == k[i] && r[j] == f[j - k.len()]);
            assert(has_id(k, k[i].id));
            assert(has_id(f, f[j - k.len()].id));
        }
    }
}

/// Returns true when some property of `s` has id `id`.
pub fn find_id(s: &Vec<Property>, id: u64) -> (r: bool)
    ensures
        r == has_id(s@, id),
{
    let mut i: usize = 0;
    while i < s.len()
        invariant
            i <= s.len(),
            forall|j: int| 0 <= j < i ==> s@[j].id != id,
        decreases s.len() - i,
    {
        if s[i].id == id {
            return true;
        }
        i += 1;
    }
    false
}

/// Regenerates the properties `cur` from the freshly generated `next`.
pub fn regenerate(cur: &Vec<Property>, next: &Vec<Property>) -> (r: Vec<Property>)
    ensures
        r@ == regenerated(cur@, next@),
{
    let mut out: Vec<Property> = Vec::new();
    let mut i: usize = 0;
    while i < cur.len()
        invariant
            i <= cur.len(),
            out@ == kept(cur@.take(i as int), next@),
        decreases cur.len() - i,
    {
        assert(cur@.take(i + 1).drop_last() == cur@.take(i as int));
        if find_id(next, cur[i].id) {
            out.push(cur[i]);
        }
        i += 1;
    }
    assert(cur@.take(cur.len() as int) == cur@);
    let mut added: Vec<Property> = Vec::new();
    let mut j: usize = 0;
    while j < next.len()
        invariant
            j <= next.len(),
            added@ == fresh(next@.take(j as int), cur@),
        decreases next.len() - j,
    {
        assert(next@.take(j + 1).drop_last() == next@.take(j as int));
        let p = next[j];
        if !find_id(cur, p.id) && !find_id(&added, p.id) {
            added.push(p);
        }
        j += 1;
    }
    assert(next@.take(next.len() as int) == next@);
    out.append(&mut added);
    out
}

/// A creature: a character that belongs to a team and can act.
#[derive(Clone, Debug)]
pub struct Creature {
    pub id: u64,
    pub team_id: u64,
    pub statistics: Vec<Statistic>,
    pub abilities: Vec<Ability>,
}

/// What a creature holds, as plain values.
pub struct CreatureView {
    pub id: u64,
    pub team_id: u64,
    pub statistics: Seq<Statistic>,
    pub abilities: Seq<Ability>,
}

impl View for Creature {
    type V = CreatureView;

    open spec fn view(&self) -> CreatureView {
        CreatureView {
            id: self.id,
            team_id: self.team_id,
            statistics: self.statistics@,
            abilities: self.abilities@,
        }
    }
}

impl Creature {
    /// Returns the creature's id.
    pub fn id(&self) -> (r: u64)
        ensures
            r == self@.id,
    {
        self.id
    }

    /// Returns the id of the team that the creature belongs to.
    pub fn team_id(&self) -> (r: u64)
        ensures
            r == self@.team_id,
    {
        self.team_id
    }

    /// Returns the creature's statistics.
    pub fn statistics(&self) -> (r: &Vec<Statistic>)
        ensures
            r@ == self@.statistics,
    {
        &self.statistics
    }

    /// Returns the creature's abilities.
    pub fn abilities(&self) -> (r: &Vec<Ability>)
        ensures
            r@ == self@.abilities,
    {
        &self.abilities
    }
}

} // verus!
