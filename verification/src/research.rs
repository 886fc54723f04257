//! Research upgrades and unlocks capabilities of units. The entire research
//! tree has a linear branch associated with each unit type. Each branch has
//! an associated level, where Level 0 represents no research yet. Performing
//! an upgrade takes a fixed number of rounds, and unlocks the upgrade at the
//! next level in the branch.
use vstd::prelude::*;
use fnv::FnvHashMap;
use crate::constants::{
    RESEARCH_FACTORY_COST, RESEARCH_HEALER_COST, RESEARCH_KNIGHT_COST, RESEARCH_MAGE_COST,
    RESEARCH_RANGER_COST, RESEARCH_ROCKET_COST, RESEARCH_WORKER_COST,
};
use crate::error::GameError;
use crate::fnv_map::{fnv_new, type_map_clone, type_map_get, type_map_insert};
use crate::unit::{UnitType as Branch, all_unit_types};
use crate::world::Rounds;

verus! {

/// Research level.
pub type Level = usize;

/// The cost, in rounds, of each level of a research branch; level 0 is free.
pub open spec fn cost_table(branch: Branch) -> Seq<Rounds> {
    match branch {
        Branch::Worker => RESEARCH_WORKER_COST@,
        Branch::Knight => RESEARCH_KNIGHT_COST@,
        Branch::Ranger => RESEARCH_RANGER_COST@,
        Branch::Mage => RESEARCH_MAGE_COST@,
        Branch::Healer => RESEARCH_HEALER_COST@,
        Branch::Factory => RESEARCH_FACTORY_COST@,
        Branch::Rocket => RESEARCH_ROCKET_COST@,
    }
}

/// The highest level of a research branch.
pub open spec fn max_level(branch: Branch) -> int {
    cost_table(branch).len() - 1
}

/// Every level above 0 costs at least one round, and no branch has more
/// than four levels above 0.
pub proof fn lemma_cost_table(branch: Branch)
    ensures
        1 <= cost_table(branch).len() <= 5,
        cost_table(branch)[0] == 0,
        forall|l: int| 1 <= l < cost_table(branch).len() ==> cost_table(branch)[l] >= 1,
{
}

fn get_cost_array(branch: &Branch) -> (v: Vec<Rounds>)
    ensures
        v@ == cost_table(*branch),
{
    match branch {
        Branch::Worker => vstd::slice::slice_to_vec(RESEARCH_WORKER_COST.as_slice()),
        Branch::Knight => vstd::slice::slice_to_vec(RESEARCH_KNIGHT_COST.as_slice()),
        Branch::Ranger => vstd::slice::slice_to_vec(RESEARCH_RANGER_COST.as_slice()),
        Branch::Mage => vstd::slice::slice_to_vec(RESEARCH_MAGE_COST.as_slice()),
        Branch::Healer => vstd::slice::slice_to_vec(RESEARCH_HEALER_COST.as_slice()),
        Branch::Factory => vstd::slice::slice_to_vec(RESEARCH_FACTORY_COST.as_slice()),
        Branch::Rocket => vstd::slice::slice_to_vec(RESEARCH_ROCKET_COST.as_slice()),
    }
}

/// Returns the maximum level of the research branch.
pub fn get_max_level(branch: &Branch) -> (r: Level)
    ensures
        r == max_level(*branch),
{
    proof {
        lemma_cost_table(*branch);
    }
    get_cost_array(branch).len() - 1
}

/// Returns the cost of a level, in rounds, of a research branch. Errors if the
/// level can't be researched i.e. not in the range [0, get_max_level(branch)].
///
/// * ResearchLevelInvalid - the level does not exist for this branch.
pub fn get_cost(branch: &Branch, level: Level) -> (r: Result<Rounds, GameError>)
    ensures
        level <= max_level(*branch) ==> r == Ok::<Rounds, GameError>(cost_table(*branch)[level as int]),
        level > max_level(*branch) ==> r == Err::<Rounds, GameError>(GameError::ResearchLevelInvalid),
{
    let costs = get_cost_array(branch);
    if level < costs.len() {
        Ok(costs[level])
    } else {
        Err(GameError::ResearchLevelInvalid)
    }
}

/// The number of times `b` occurs in the queue.
pub open spec fn queued(queue: Seq<Branch>, b: Branch) -> nat {
    queue.filter(is_branch(b)).len()
}

/// The predicate that picks out one branch.
pub open spec fn is_branch(b: Branch) -> spec_fn(Branch) -> bool {
    |x: Branch| x == b
}

/// The rounds left for the branch at the front of the queue, when it was
/// just started: the cost of its next level.
pub open spec fn front_cost(level: Map<Branch, Level>, queue: Seq<Branch>) -> Option<Rounds> {
    if queue.len() == 0 {
        None
    } else {
        Some(cost_table(queue[0])[level[queue[0]] + 1])
    }
}


proof fn lemma_queued_push(s: Seq<Branch>, x: Branch, b: Branch)
    ensures
        queued(s.push(x), b) == queued(s, b) + if x == b { 1nat } else { 0nat },
{
    reveal_with_fuel(Seq::filter, 1);
    assert(s.push(x).drop_last() == s);
}

proof fn lemma_queued_drop_first(s: Seq<Branch>, b: Branch)
    requires
        s.len() > 0,
    ensures
        queued(s, b) == queued(s.drop_first(), b) + if s[0] == b { 1nat } else { 0nat },
{
    s.drop_first().lemma_filter_prepend(s[0], is_branch(b));
    assert(seq![s[0]] + s.drop_first() == s);
}

proof fn lemma_queued_empty(b: Branch)
    ensures
        queued(Seq::<Branch>::empty(), b) == 0,
{
    assert(Seq::<Branch>::empty().filter(is_branch(b)) =~= Seq::<Branch>::empty());
}

/// The research queue after its front branch is finished.
pub open spec fn levels_after_front(level: Map<Branch, Level>, queue: Seq<Branch>) -> Map<Branch, Level> {
    level.insert(queue[0], (level[queue[0]] + 1) as usize)
}

/// The status of research for a single team.
#[derive(Debug)]
pub struct ResearchInfo {
    /// The current level of each research branch, starting at 0.
    level: FnvHashMap<Branch, Level>,
    /// The level of each branch if the queue were to be exhausted.
    maybe_level: FnvHashMap<Branch, Level>,
    /// Branches queued to be researched, including the current branch.
    queue: Vec<Branch>,
    /// The number of rounds to go until the first branch in the queue is
    /// finished, if the queue is not empty.
    rounds_left: Option<Rounds>,
}

impl ResearchInfo {
    /// The current level of each branch.
    pub closed spec fn levels(&self) -> Map<Branch, Level> {
        self.level@
    }

    /// The queue, front first.
    pub closed spec fn queue_view(&self) -> Seq<Branch> {
        self.queue@
    }

    /// The rounds left on the branch at the front of the queue.
    pub closed spec fn rounds(&self) -> Option<Rounds> {
        self.rounds_left
    }

    /// The well-formedness of research: every branch has a level; the level
    /// a branch reaches when the queue is exhausted is its level plus the
    /// times it is queued, and never beyond its last level; there are rounds
    /// left exactly when the queue is not empty, and at least one.
    pub closed spec fn wf(&self) -> bool {
        &&& forall|b: Branch| #[trigger] self.level@.contains_key(b)
        &&& forall|b: Branch| #[trigger] self.maybe_level@.contains_key(b)
        &&& forall|b: Branch|
            #![trigger self.maybe_level@[b]]
            self.maybe_level@[b] == self.level@[b] + queued(self.queue@, b)
                && self.maybe_level@[b] <= max_level(b)
        &&& self.queue@.len() == 0 <==> self.rounds_left is None
        &&& self.rounds_left matches Some(k) ==> 1 <= k
    }

    /// No branch is planned past its last level: the level of a branch,
    /// with what of it is queued, stays within its maximum.
    pub proof fn lemma_levels_within_max(&self)
        requires
            self.wf(),
        ensures
            forall|b: Branch| #[trigger] self.planned_level(b) <= max_level(b),
            forall|b: Branch| #[trigger] self.levels()[b] <= self.planned_level(b),
    {
        assert forall|b: Branch| #[trigger] self.planned_level(b) <= max_level(b) by {
            assert(self.maybe_level@[b] == self.level@[b] + queued(self.queue@, b));
        }
        assert forall|b: Branch| #[trigger] self.levels()[b] <= self.planned_level(b) by {
            assert(self.maybe_level@[b] == self.level@[b] + queued(self.queue@, b));
            assert(queued(self.queue@, b) >= 0);
        }
    }

    /// The level each branch reaches once everything queued is researched.
    pub open spec fn planned_level(&self, b: Branch) -> int {
        self.levels()[b] + queued(self.queue_view(), b)
    }

    /// Construct an initial research state.
    pub fn new() -> (r: ResearchInfo)
        ensures
            r.wf(),
            forall|b: Branch| #[trigger] r.levels()[b] == 0,
            r.queue_view() == Seq::<Branch>::empty(),
            r.rounds() is None,
    {
        let mut level = fnv_new();
        let all = Branch::all();
        let mut i: usize = 0;
        while i < all.len()
            invariant
                all@ == all_unit_types(),
                0 <= i <= all@.len(),
                forall|b: Branch| #[trigger] level@.contains_key(b) <==> all@.take(i as int).contains(b),
                forall|b: Branch| level@.contains_key(b) ==> #[trigger] level@[b] == 0,
            decreases all@.len() - i,
        {
            type_map_insert(&mut level, all[i], 0);
            proof {
                broadcast use vstd::seq_lib::group_seq_properties;
                assert(all@.take(i + 1) == all@.take(i as int).push(all@[i as int]));
            }
            i = i + 1;
        }
        proof {
            assert(all@.take(i as int) == all@);
            assert forall|b: Branch| #[trigger] level@.contains_key(b) by {
                match b {
                    Branch::Worker => assert(all@[0] == b),
                    Branch::Knight => assert(all@[1] == b),
                    Branch::Ranger => assert(all@[2] == b),
                    Branch::Mage => assert(all@[3] == b),
                    Branch::Healer => assert(all@[4] == b),
                    Branch::Factory => assert(all@[5] == b),
                    Branch::Rocket => assert(all@[6] == b),
                }
            }
        }
        let r = ResearchInfo {
            level: type_map_clone(&level),
            maybe_level: level,
            queue: Vec::new(),
            rounds_left: None,
        };
        proof {
            assert forall|b: Branch| #![trigger r.maybe_level@[b]]
                r.maybe_level@[b] == r.level@[b] + queued(r.queue@, b)
                    && r.maybe_level@[b] <= max_level(b) by {
                assert(r.queue@.filter(is_branch(b)) =~= Seq::<Branch>::empty());
                lemma_cost_table(b);
            }
        }
        r
    }

    /// Returns the current level of the research branch.
    pub fn get_level(&self, branch: &Branch) -> (r: Level)
        requires
            self.wf(),
        ensures
            r == self.levels()[*branch],
    {
        *type_map_get(&self.level, *branch).unwrap()
    }

    /// Returns the research queue, where the front of the queue is at the
    /// beginning of the list.
    pub fn get_queue(&self) -> (r: Vec<Branch>)
        ensures
            r@ == self.queue_view(),
    {
        self.queue.clone()
    }

    /// Returns the next branch to be researched, which is the branch at the
    /// front of the research queue. Returns None if the queue is empty.
    pub fn get_next_in_queue(&self) -> (r: Option<Branch>)
        ensures
            self.queue_view().len() == 0 ==> r is None,
            self.queue_view().len() > 0 ==> r == Some(self.queue_view()[0]),
    {
        if self.queue.len() > 0 {
            Some(self.queue[0])
        } else {
            None
        }
    }

    /// Returns the number of rounds left until the upgrade at the front of the
    /// research queue is applied, or None if the queue is empty.
    pub fn get_rounds_left(&self) -> (r: Option<Rounds>)
        ensures
            r == self.rounds(),
    {
        self.rounds_left
    }
    /// Sets the number of rounds left to the cost of the first thing in the
    /// queue. Sets the cost to None if the queue is empty.
    fn reset_rounds_left(&mut self)
        requires
            forall|b: Branch| #[trigger] old(self).level@.contains_key(b),
            old(self).queue@.len() > 0 ==> old(self).level@[old(self).queue@[0]] + 1 <= max_level(
                old(self).queue@[0],
            ),
        ensures
            final(self).rounds_left == front_cost(old(self).level@, old(self).queue@),
            final(self).level == old(self).level,
            final(self).maybe_level == old(self).maybe_level,
            final(self).queue == old(self).queue,
    {
        if self.queue.len() == 0 {
            self.rounds_left = None;
            return;
        }
        let branch = self.queue[0];
        let level = self.get_level_unchecked(&branch) + 1;
        let cost = get_cost(&branch, level);
        match cost {
            Ok(c) => {
                self.rounds_left = Some(c);
            },
            Err(_) => {
                proof {
                    assert(false);
                }
            },
        }
    }

    fn get_level_unchecked(&self, branch: &Branch) -> (r: Level)
        requires
            forall|b: Branch| #[trigger] self.level@.contains_key(b),
        ensures
            r == self.level@[*branch],
    {
        *type_map_get(&self.level, *branch).unwrap()
    }

    /// Resets the research queue to be empty. Returns true if the queue was
    /// not empty before, and false otherwise.
    pub fn reset_queue(&mut self) -> (r: bool)
        requires
            old(self).wf(),
        ensures
            final(self).wf(),
            r == (old(self).queue_view().len() != 0),
            final(self).levels() == old(self).levels(),
            final(self).queue_view() == Seq::<Branch>::empty(),
            final(self).rounds() is None,
    {
        let old_queue_len = self.queue.len();
        self.maybe_level = type_map_clone(&self.level);
        self.queue.clear();
        self.rounds_left = None;
        proof {
            assert forall|b: Branch| #![trigger self.maybe_level@[b]]
                self.maybe_level@[b] == self.level@[b] + queued(self.queue@, b)
                    && self.maybe_level@[b] <= max_level(b) by {
                lemma_queued_empty(b);
                assert(old(self).maybe_level@[b] == old(self).level@[b] + queued(old(self).queue@, b));
                assert(self.queue@ == Seq::<Branch>::empty());
            }
        }
        old_queue_len != 0
    }

    /// Adds a branch to the back of the queue, if it is a valid upgrade, and
    /// starts research if it is the first in the queue.
    ///
    /// Returns whether the branch was successfully added.
    pub fn add_to_queue(&mut self, branch: &Branch) -> (r: bool)
        requires
            old(self).wf(),
        ensures
            final(self).wf(),
            r == (old(self).planned_level(*branch) + 1 <= max_level(*branch)),
            !r ==> *final(self) == *old(self),
            r ==> final(self).levels() == old(self).levels(),
            r ==> final(self).queue_view() == old(self).queue_view().push(*branch),
            r && old(self).queue_view().len() > 0 ==> final(self).rounds() == old(self).rounds(),
            r && old(self).queue_view().len() == 0 ==> final(self).rounds() == front_cost(
                final(self).levels(),
                final(self).queue_view(),
            ),
    {
        let new_level = *type_map_get(&self.maybe_level, *branch).unwrap() + 1;
        let max = get_max_level(branch);
        proof {
            assert(self.maybe_level@[*branch] == self.level@[*branch] + queued(self.queue@, *branch));
        }
        if new_level > max {
            return false;
        }
        let ghost old_queue = self.queue@;
        self.queue.push(*branch);
        type_map_insert(&mut self.maybe_level, *branch, new_level);
        proof {
            assert forall|b: Branch| #![trigger self.maybe_level@[b]]
                self.maybe_level@[b] == self.level@[b] + queued(self.queue@, b)
                    && self.maybe_level@[b] <= max_level(b) by {
                lemma_queued_push(old_queue, *branch, b);
                assert(old(self).maybe_level@[b] == old(self).level@[b] + queued(old_queue, b));
            }
        }
        if self.queue.len() == 1 {
            proof {
                assert(self.queue@[0] == *branch);
                lemma_queued_empty(*branch);
                assert(old_queue == Seq::<Branch>::empty());
            }
            self.reset_rounds_left();
        }
        true
    }

    /// Updates the internal state of research as if another round has passed.
    /// If an upgrade has completed, returns the branch that was just upgraded,
    /// and continues work on the next upgrade in the queue.
    ///
    /// Otherwise returns None.
    pub fn update(&mut self) -> (r: Option<Branch>)
        requires
            old(self).wf(),
        ensures
            final(self).wf(),
            old(self).rounds() is None ==> r is None && *final(self) == *old(self),
            old(self).rounds() is Some && old(self).rounds()->0 > 1 ==> r is None && final(self).levels()
                == old(self).levels() && final(self).queue_view() == old(self).queue_view()
                && final(self).rounds() == Some((old(self).rounds()->0 - 1) as u32),
            old(self).rounds() is Some && old(self).rounds()->0 <= 1 ==> r == Some(old(self).queue_view()[0])
                && final(self).levels() == levels_after_front(old(self).levels(), old(self).queue_view())
                && final(self).queue_view() == old(self).queue_view().drop_first()
                && final(self).rounds() == front_cost(final(self).levels(), final(self).queue_view()),
            old(self).rounds() is Some && old(self).rounds()->0 <= 1 ==> final(self).levels()[old(
                self,
            ).queue_view()[0]] == old(self).levels()[old(self).queue_view()[0]] + 1,
    {
        proof {
            old(self).lemma_levels_within_max();
        }
        if let Some(rounds_left) = self.rounds_left {
            if rounds_left > 1 {
                self.rounds_left = Some(rounds_left - 1);
                return None;
            }
            let ghost old_queue = self.queue@;
            let branch = self.queue.remove(0);
            let l = *type_map_get(&self.level, branch).unwrap();
            proof {
                lemma_queued_drop_first(old_queue, branch);
                assert(self.maybe_level@[branch] == self.level@[branch] + queued(old_queue, branch));
            }
            type_map_insert(&mut self.level, branch, l + 1);
            proof {
                assert(self.queue@ == old_queue.drop_first());
                assert forall|b: Branch| #![trigger self.maybe_level@[b]]
                    self.maybe_level@[b] == self.level@[b] + queued(self.queue@, b)
                        && self.maybe_level@[b] <= max_level(b) by {
                    lemma_queued_drop_first(old_queue, b);
                    assert(old(self).maybe_level@[b] == old(self).level@[b] + queued(old_queue, b));
                }
                if self.queue@.len() > 0 {
                    let f = self.queue@[0];
                    lemma_queued_drop_first(self.queue@, f);
                    assert(self.maybe_level@[f] == self.level@[f] + queued(self.queue@, f));
                }
            }
            self.reset_rounds_left();
            proof {
                if self.queue@.len() > 0 {
                    lemma_cost_table(self.queue@[0]);
                }
            }
            Some(branch)
        } else {
            None
        }
    }
}

impl Clone for ResearchInfo {
    fn clone(&self) -> (r: Self)
        ensures
            r.levels() == self.levels(),
            r.queue_view() == self.queue_view(),
            r.rounds() == self.rounds(),
            self.wf() ==> r.wf(),
    {
        let mut queue: Vec<Branch> = Vec::new();
        let mut i: usize = 0;
        while i < self.queue.len()
            invariant
                0 <= i <= self.queue@.len(),
                queue@ == self.queue@.take(i as int),
            decreases self.queue@.len() - i,
        {
            queue.push(self.queue[i]);
            i = i + 1;
            assert(queue@ =~= self.queue@.take(i as int));
        }
        assert(self.queue@.take(self.queue@.len() as int) =~= self.queue@);
        ResearchInfo {
            level: type_map_clone(&self.level),
            maybe_level: type_map_clone(&self.maybe_level),
            queue: queue,
            rounds_left: self.rounds_left,
        }
    }
}

} // verus!
