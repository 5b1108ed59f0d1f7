//! Counters that the engine and the game keep during a battle.
use crate::assoc::{
    assoc_get, assoc_set, assoc_unique, lemma_assoc_get_absent, lemma_assoc_get_at,
    lemma_assoc_set,
};
use vstd::prelude::*;

verus! {

/// System counter: teams created.
pub const TEAMS_CREATED: u64 = 0;

/// System counter: creatures created.
pub const CREATURES_CREATED: u64 = 1;

/// The counters as plain values: id and value pairs, one per id.
pub struct MetricsView {
    pub system: Seq<(u64, u64)>,
    pub user: Seq<(u64, u64)>,
}

/// `value + delta`, held at `u64::MAX`.
pub open spec fn saturating(value: u64, delta: u64) -> u64 {
    if value + delta > u64::MAX {
        u64::MAX
    } else {
        (value + delta) as u64
    }
}

/// The counters after adding `delta` to the counter `id`; an unset counter counts
/// from zero.
pub open spec fn bumped(s: Seq<(u64, u64)>, id: u64, delta: u64) -> Seq<(u64, u64)> {
    let current = match assoc_get(s, id) {
        Some(v) => v,
        None => 0,
    };
    assoc_set(s, id, saturating(current, delta))
}

pub proof fn lemma_bumped_wf(s: Seq<(u64, u64)>, id: u64, delta: u64)
    requires
        assoc_unique(s),
    ensures
        assoc_unique(bumped(s, id, delta)),
{
    let current = match assoc_get(s, id) {
        Some(v) => v,
        None => 0,
    };
    lemma_assoc_set(s, id, saturating(current, delta));
}

impl MetricsView {
    pub open spec fn empty() -> MetricsView {
        MetricsView { system: Seq::empty(), user: Seq::empty() }
    }

    pub open spec fn wf(self) -> bool {
        assoc_unique(self.system) && assoc_unique(self.user)
    }
}

/// The system and user counters of a battle.
pub struct Metrics {
    system: Vec<(u64, u64)>,
    user: Vec<(u64, u64)>,
}

impl View for Metrics {
    type V = MetricsView;

    closed spec fn view(&self) -> MetricsView {
        MetricsView { system: self.system@, user: self.user@ }
    }
}

fn find_counter(s: &Vec<(u64, u64)>, id: u64) -> (r: Option<usize>)
    requires
        assoc_unique(s@),
    ensures
        r is None ==> forall|k: int| 0 <= k < s@.len() ==> s@[k].0 != id,
        r matches Some(j) ==> j < s@.len() && s@[j as int].0 == id,
        r is None ==> assoc_get(s@, id) == None::<u64>,
        r matches Some(j) ==> assoc_get(s@, id) == Some(s@[j as int].1),
{
    let mut j: usize = 0;
    while j < s.len()
        invariant
            j <= s.len(),
            assoc_unique(s@),
            forall|k: int| 0 <= k < j ==> s@[k].0 != id,
        decreases s.len() - j,
    {
        if s[j].0 == id {
            proof {
                lemma_assoc_get_at(s@, j as int);
            }
            return Some(j);
        }
        j += 1;
    }
    proof {
        lemma_assoc_get_absent(s@, id);
    }
    None
}

fn add_counter(s: &mut Vec<(u64, u64)>, id: u64, delta: u64)
    requires
        assoc_unique(old(s)@),
    ensures
        assoc_unique(final(s)@),
        final(s)@ == bumped(old(s)@, id, delta),
{
    proof {
        let current = match assoc_get(s@, id) {
            Some(v) => v,
            None => 0,
        };
        lemma_assoc_set(s@, id, saturating(current, delta));
    }
    let ghost before = s@;
    match find_counter(s, id) {
        Some(j) => {
            let value = s[j].1.saturating_add(delta);
            let ghost q = choose|q: int| 0 <= q < before.len() && before[q].0 == id;
            assert(q == j);
            s.remove(j);
            s.insert(j, (id, value));
            assert(s@ =~= bumped(before, id, delta));
        },
        None => {
            s.push((id, delta));
            assert(s@ =~= bumped(before, id, delta));
        },
    }
}

impl Metrics {
    /// No counter is set.
    pub fn new() -> (r: Metrics)
        ensures
            r@ == MetricsView::empty(),
            r@.wf(),
    {
        Metrics { system: Vec::new(), user: Vec::new() }
    }

    /// Returns the system counter `id`, if it was ever set.
    pub fn system_u64(&self, id: u64) -> (r: Option<u64>)
        requires
            self@.wf(),
        ensures
            r == assoc_get(self@.system, id),
    {
        match find_counter(&self.system, id) {
            Some(j) => Some(self.system[j].1),
            None => None,
        }
    }

    /// Returns the user counter `id`, if it was ever set.
    pub fn user_u64(&self, id: u64) -> (r: Option<u64>)
        requires
            self@.wf(),
        ensures
            r == assoc_get(self@.user, id),
    {
        match find_counter(&self.user, id) {
            Some(j) => Some(self.user[j].1),
            None => None,
        }
    }

    /// Adds `delta` to the system counter `id`, saturating at `u64::MAX`.
    pub fn add_system_u64(&mut self, id: u64, delta: u64)
        requires
            old(self)@.wf(),
        ensures
            final(self)@.wf(),
            final(self)@ == (MetricsView {
                system: bumped(old(self)@.system, id, delta),
                user: old(self)@.user,
            }),
    {
        add_counter(&mut self.system, id, delta);
    }

    /// Adds `delta` to the user counter `id`, saturating at `u64::MAX`.
    pub fn add_user_u64(&mut self, id: u64, delta: u64)
        requires
            old(self)@.wf(),
        ensures
            final(self)@.wf(),
            final(self)@ == (MetricsView {
                system: old(self)@.system,
                user: bumped(old(self)@.user, id, delta),
            }),
    {
        add_counter(&mut self.user, id, delta);
    }
}

} // verus!
