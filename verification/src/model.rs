use vstd::prelude::*;
use std::collections::HashSet;

use crate::config::{Config, Research, ResearchItemConfig};

verus! {

broadcast use vstd::std_specs::hash::group_hash_axioms;

/// Amounts of science, the currency of the game.
pub type Science = i64;

/// A multiplier that research can raise.
#[derive(Debug, Clone, Copy, PartialEq, Eq, Hash, Structural)]
pub enum Stat {
    Theorycrafting,
    SatelliteLongevity,
    SatelliteEfficiency,
    CollisionAvoidance,
    SatelliteIntegrity,
}

/// The kinds of satellite that can be launched.
#[derive(Debug, Clone, Copy, PartialEq, Eq, Hash, Structural)]
pub enum SatelliteKind {
    Basic,
    Communication,
    DebrisCleaner,
}

/// Something the player is allowed to do, granted by research.
#[derive(Debug, Clone, Copy, PartialEq, Eq, Hash, Structural)]
pub enum Ability {
    TheoreticResearch,
    Launch(SatelliteKind),
    Deorbit,
    DeorbitAuto,
    DeployAuto,
    CollisionAnalysis,
    RadarDebris,
}

/// An object in orbit that the player can point at, by the key under which
/// its arena holds it.
#[derive(Debug, Clone, Copy, PartialEq, Eq, Hash, Structural)]
pub enum InteractiveId {
    Satellite(u64),
    Debris(u64),
}

/// A request of the player.
#[derive(Debug, Clone, Copy, PartialEq, Eq, Structural)]
pub enum Action {
    TheoreticResearch,
    Launch(SatelliteKind),
    Deorbit(InteractiveId),
}

/// The ability an action needs.
pub open spec fn spec_ability(action: Action) -> Ability {
    match action {
        Action::TheoreticResearch => Ability::TheoreticResearch,
        Action::Launch(kind) => Ability::Launch(kind),
        Action::Deorbit(_) => Ability::Deorbit,
    }
}

impl Action {
    /// The ability this action needs.
    pub fn ability(&self) -> (ability: Ability)
        ensures
            ability == spec_ability(*self),
            *self is TheoreticResearch ==> ability == Ability::TheoreticResearch,
            *self matches Action::Launch(kind) ==> ability == Ability::Launch(kind),
            *self is Deorbit ==> ability == Ability::Deorbit,
    {
        match self {
            Action::TheoreticResearch => Ability::TheoreticResearch,
            Action::Launch(kind) => Ability::Launch(*kind),
            Action::Deorbit(_) => Ability::Deorbit,
        }
    }
}

/// Where a research stands for the player.
#[derive(Debug, Clone, Copy, PartialEq, Eq, Structural)]
pub enum ResearchState {
    Researched,
    Available { cost: Science },
    Locked,
}

impl ResearchState {
    /// Whether the research window shows the research: done or available.
    pub fn is_shown(&self) -> (shown: bool)
        ensures
            shown == (*self is Researched || *self is Available),
    {
        match self {
            ResearchState::Researched => true,
            ResearchState::Available { .. } => true,
            ResearchState::Locked => false,
        }
    }
}

/// How the research window colors a research.
#[derive(Debug, Clone, Copy, PartialEq, Eq, Structural)]
pub enum ResearchTint {
    Researched,
    /// Available, and the science covers the cost.
    Available,
    /// Available, but the science does not cover the cost.
    Expensive,
    Locked,
}

/// How crowded the orbit is.
#[derive(Debug, Clone, Copy, PartialEq, Eq, PartialOrd, Ord, Structural)]
pub enum CollisionRisk {
    Safe,
    Caution,
    Moderate,
    Severe,
}

/// The risk for a number of objects in orbit, given the largest number that
/// is still safe, still cautious and still moderate.
pub open spec fn spec_collision_risk(
    total: usize,
    safe_max: usize,
    caution_max: usize,
    moderate_max: usize,
) -> CollisionRisk {
    if total <= safe_max {
        CollisionRisk::Safe
    } else if total <= caution_max {
        CollisionRisk::Caution
    } else if total <= moderate_max {
        CollisionRisk::Moderate
    } else {
        CollisionRisk::Severe
    }
}

impl CollisionRisk {
    /// The risk for `total` objects in orbit: `Safe` up to `safe_max`, then
    /// `Caution` up to `caution_max`, then `Moderate` up to `moderate_max`,
    /// `Severe` above.
    pub fn from_object_count(
        total: usize,
        safe_max: usize,
        caution_max: usize,
        moderate_max: usize,
    ) -> (risk: CollisionRisk)
        ensures
            risk == spec_collision_risk(total, safe_max, caution_max, moderate_max),
            total <= safe_max ==> risk == CollisionRisk::Safe,
            safe_max < total <= caution_max ==> risk == CollisionRisk::Caution,
            safe_max < total && caution_max < total <= moderate_max ==> risk
                == CollisionRisk::Moderate,
            safe_max < total && caution_max < total && moderate_max < total ==> risk
                == CollisionRisk::Severe,
    {
        if total <= safe_max {
            CollisionRisk::Safe
        } else if total <= caution_max {
            CollisionRisk::Caution
        } else if total <= moderate_max {
            CollisionRisk::Moderate
        } else {
            CollisionRisk::Severe
        }
    }

    /// The rank of the risk, from `Safe` (0) to `Severe` (3).
    pub open spec fn spec_rank(self) -> int {
        match self {
            CollisionRisk::Safe => 0,
            CollisionRisk::Caution => 1,
            CollisionRisk::Moderate => 2,
            CollisionRisk::Severe => 3,
        }
    }
}

/// A set of abilities.
pub struct AbilitySet {
    items: Vec<Ability>,
}

impl View for AbilitySet {
    type V = Set<Ability>;

    closed spec fn view(&self) -> Set<Ability> {
        self.items@.to_set()
    }
}

impl AbilitySet {
    /// The empty set.
    pub fn new() -> (set: Self)
        ensures
            set@ == Set::<Ability>::empty(),
    {
        let set = AbilitySet { items: Vec::new() };
        assert(set@ =~= Set::<Ability>::empty());
        set
    }

    /// Whether the set holds the ability.
    pub fn contains(&self, ability: &Ability) -> (found: bool)
        ensures
            found == self@.contains(*ability),
    {
        let mut i: usize = 0;
        while i < self.items.len()
            invariant
                i <= self.items@.len(),
                forall|j: int| 0 <= j < i ==> self.items@[j] != *ability,
            decreases self.items.len() - i,
        {
            if self.items[i] == *ability {
                assert(self.items@.contains(*ability));
                return true;
            }
            i = i + 1;
        }
        false
    }

    /// Adds the ability to the set.
    pub fn insert(&mut self, ability: Ability)
        ensures
            final(self)@ == old(self)@.insert(ability),
    {
        if !self.contains(&ability) {
            let ghost before = self.items@;
            self.items.push(ability);
            assert forall|x: Ability| self.items@.contains(x) <==> (before.contains(x) || x
                == ability) by {
                if before.contains(x) {
                    let j = choose|j: int| 0 <= j < before.len() && before[j] == x;
                    assert(self.items@[j] == x);
                }
                if x == ability {
                    assert(self.items@[before.len() as int] == x);
                }
                if self.items@.contains(x) && x != ability {
                    let j = choose|j: int| 0 <= j < self.items@.len() && self.items@[j] == x;
                    assert(j < before.len());
                    assert(before[j] == x);
                }
            }
        }
        assert(self@ =~= old(self)@.insert(ability));
    }
}

/// The first research in `items` with the given id.
pub open spec fn spec_research_item<R>(items: Seq<ResearchItemConfig<R>>, id: u64) -> Option<
    ResearchItemConfig<R>,
>
    decreases items.len(),
{
    if items.len() == 0 {
        None
    } else if items[0].id == id {
        Some(items[0])
    } else {
        spec_research_item(items.drop_first(), id)
    }
}

/// The first research in `items` with the given id.
pub fn find_research<R>(items: &Vec<ResearchItemConfig<R>>, id: u64) -> (found: Option<
    &ResearchItemConfig<R>,
>)
    ensures
        match found {
            Some(item) => spec_research_item(items@, id) == Some(*item),
            None => spec_research_item(items@, id) is None,
        },
{
    let mut i: usize = 0;
    assert(items@.skip(0) =~= items@);
    while i < items.len()
        invariant
            i <= items@.len(),
            spec_research_item(items@, id) == spec_research_item(items@.skip(i as int), id),
        decreases items.len() - i,
    {
        if items[i].id == id {
            return Some(&items[i]);
        }
        assert(items@.skip(i as int).drop_first() =~= items@.skip(i + 1));
        i = i + 1;
    }
    None
}

/// Whether every id in `ids` is in `done`.
fn all_researched(done: &HashSet<u64>, ids: &Vec<u64>) -> (all: bool)
    ensures
        all == (forall|k: int| 0 <= k < ids@.len() ==> done@.contains(ids@[k])),
{
    let mut i: usize = 0;
    while i < ids.len()
        invariant
            i <= ids@.len(),
            forall|k: int| 0 <= k < i ==> done@.contains(ids@[k]),
        decreases ids.len() - i,
    {
        if !done.contains(&ids[i]) {
            return false;
        }
        i = i + 1;
    }
    true
}

/// The progress of the player: what was researched, what may be done, and the
/// science on hand.
pub struct Model<R> {
    pub config: Config<R>,
    pub researched: HashSet<u64>,
    pub abilities: AbilitySet,
    pub science: Science,
}

/// What the caller has to carry out after an action was accepted.
#[derive(Debug, Clone, Copy, PartialEq, Eq, Structural)]
pub enum ActionEffect {
    /// The action was not allowed, or could not be paid for; nothing changed.
    Refused,
    /// One click of theoretic research.
    TheoryProgress,
    /// A satellite of this kind was paid for and goes into orbit.
    Launch(SatelliteKind),
    /// The object starts to deorbit.
    Deorbit(InteractiveId),
}

/// A launch waiting to be paid for.
#[derive(Debug, Clone, Copy, PartialEq, Eq, Structural)]
pub struct QueuedLaunch {
    /// Whether the launch costs science.
    pub payment: bool,
    pub kind: SatelliteKind,
}

/// Works through a launch queue with `science` on hand and launches costing
/// `cost`: a launch goes ahead when it is free or the science covers it, and
/// otherwise stays queued. Gives the science left, the kinds launched and the
/// launches still waiting, both in queue order.
pub open spec fn spec_launch_queue(science: int, cost: int, queue: Seq<QueuedLaunch>) -> (
    int,
    Seq<SatelliteKind>,
    Seq<QueuedLaunch>,
)
    decreases queue.len(),
{
    if queue.len() == 0 {
        (science, seq![], seq![])
    } else {
        let (left, launched, waiting) = spec_launch_queue(science, cost, queue.drop_last());
        let launch = queue.last();
        if !launch.payment {
            (left, launched.push(launch.kind), waiting)
        } else if left >= cost {
            (left - cost, launched.push(launch.kind), waiting)
        } else {
            (left, launched, waiting.push(launch))
        }
    }
}

/// Whether working through the queue keeps the science within `i64` at every
/// paid launch.
pub open spec fn spec_launch_queue_fits(science: int, cost: int, queue: Seq<QueuedLaunch>) -> bool
    decreases queue.len(),
{
    if queue.len() == 0 {
        true
    } else {
        let left = spec_launch_queue(science, cost, queue.drop_last()).0;
        &&& spec_launch_queue_fits(science, cost, queue.drop_last())
        &&& (queue.last().payment && left >= cost ==> left - cost <= i64::MAX)
    }
}

/// A queue that fits fits in each of its beginnings.
proof fn lemma_launch_queue_fits_prefix(science: int, cost: int, queue: Seq<QueuedLaunch>, n: int)
    requires
        spec_launch_queue_fits(science, cost, queue),
        0 <= n <= queue.len(),
    ensures
        spec_launch_queue_fits(science, cost, queue.take(n)),
    decreases queue.len(),
{
    if n < queue.len() {
        assert(queue.drop_last().take(n) =~= queue.take(n));
        lemma_launch_queue_fits_prefix(science, cost, queue.drop_last(), n);
    } else {
        assert(queue.take(n) =~= queue);
    }
}

impl<R> Model<R> {
    /// The research with the given id, if the configuration has one.
    pub open spec fn spec_item(&self, id: u64) -> Option<ResearchItemConfig<R>> {
        spec_research_item(self.config.research.items@, id)
    }

    /// Where the research with the given id stands.
    pub open spec fn spec_research_state(&self, id: u64) -> ResearchState {
        if self.researched@.contains(id) {
            ResearchState::Researched
        } else {
            match self.spec_item(id) {
                None => ResearchState::Locked,
                Some(item) => if forall|k: int|
                    0 <= k < item.after@.len() ==> self.researched@.contains(item.after@[k]) {
                    ResearchState::Available { cost: item.cost }
                } else {
                    ResearchState::Locked
                },
            }
        }
    }

    /// Whether `research(id)` buys the research: it is not done yet, it exists,
    /// and there is enough science for it.
    pub open spec fn spec_can_buy(&self, id: u64) -> bool {
        &&& !self.researched@.contains(id)
        &&& self.spec_item(id) is Some
        &&& self.science >= self.spec_item(id)->0.cost
    }

    /// Whether paying for the research keeps the science within `i64`.
    pub open spec fn spec_research_fits(&self, id: u64) -> bool {
        self.spec_can_buy(id) ==> self.science - self.spec_item(id)->0.cost <= i64::MAX
    }

    /// Whether paying for a launch keeps the science within `i64`.
    pub open spec fn spec_launch_fits(&self) -> bool {
        self.science >= self.config.satellite.launch_cost ==> self.science
            - self.config.satellite.launch_cost <= i64::MAX
    }

    /// A new game: nothing researched, no science, and only theoretic research
    /// allowed.
    pub fn new(config: Config<R>) -> (model: Self)
        ensures
            model.config == config,
            model.researched@ == Set::<u64>::empty(),
            model.abilities@ == set![Ability::TheoreticResearch],
            model.science == 0,
    {
        let mut abilities = AbilitySet::new();
        abilities.insert(Ability::TheoreticResearch);
        assert(abilities@ =~= set![Ability::TheoreticResearch]);
        Model { config, researched: HashSet::new(), abilities, science: 0 }
    }

    /// The research with the given id, if the configuration has one.
    pub fn get_research(&self, id: u64) -> (found: Option<&ResearchItemConfig<R>>)
        ensures
            match found {
                Some(item) => self.spec_item(id) == Some(*item),
                None => self.spec_item(id) is None,
            },
    {
        find_research(&self.config.research.items, id)
    }

    /// How the research window colors the research with the given id.
    pub fn research_tint(&self, id: u64) -> (tint: ResearchTint)
        ensures
            tint == match self.spec_research_state(id) {
                ResearchState::Researched => ResearchTint::Researched,
                ResearchState::Available { cost } => if self.science >= cost {
                    ResearchTint::Available
                } else {
                    ResearchTint::Expensive
                },
                ResearchState::Locked => ResearchTint::Locked,
            },
            tint == ResearchTint::Available || tint == ResearchTint::Expensive ==> {
                &&& self.spec_item(id) is Some
                &&& forall|k: int|
                    0 <= k < self.spec_item(id)->0.after@.len() ==> self.researched@.contains(
                        #[trigger] self.spec_item(id)->0.after@[k],
                    )
            },
    {
        match self.get_research_state(id) {
            ResearchState::Researched => ResearchTint::Researched,
            ResearchState::Available { cost } => {
                if self.science >= cost {
                    ResearchTint::Available
                } else {
                    ResearchTint::Expensive
                }
            },
            ResearchState::Locked => ResearchTint::Locked,
        }
    }

    /// Where the research with the given id stands: done, available for its
    /// cost once everything it comes after is done, or locked.
    pub fn get_research_state(&self, id: u64) -> (state: ResearchState)
        ensures
            state == self.spec_research_state(id),
            state is Available ==> {
                &&& !self.researched@.contains(id)
                &&& self.spec_item(id) is Some
                &&& state->cost == self.spec_item(id)->0.cost
                &&& forall|k: int|
                    0 <= k < self.spec_item(id)->0.after@.len() ==> self.researched@.contains(
                        #[trigger] self.spec_item(id)->0.after@[k],
                    )
            },
            !self.researched@.contains(id) && self.spec_item(id) is Some && (exists|k: int|
                0 <= k < self.spec_item(id)->0.after@.len() && !self.researched@.contains(
                    #[trigger] self.spec_item(id)->0.after@[k],
                )) ==> state == ResearchState::Locked,
    {
        if self.researched.contains(&id) {
            return ResearchState::Researched;
        }
        match find_research(&self.config.research.items, id) {
            None => ResearchState::Locked,
            Some(item) => {
                if all_researched(&self.researched, &item.after) {
                    ResearchState::Available { cost: item.cost }
                } else {
                    ResearchState::Locked
                }
            },
        }
    }
    /// Pays for a launch when `pay_cost` is set: the launch goes ahead, and the
    /// cost is taken from the science, only if there is enough science. A
    /// launch that is not paid for always goes ahead.
    pub fn pay_for_launch(&mut self, pay_cost: bool) -> (launched: bool)
        requires
            pay_cost ==> old(self).spec_launch_fits(),
        ensures
            launched == (!pay_cost || old(self).science >= old(self).config.satellite.launch_cost),
            final(self).science == if pay_cost && launched {
                old(self).science - old(self).config.satellite.launch_cost
            } else {
                old(self).science as int
            },
            final(self).config == old(self).config,
            final(self).researched == old(self).researched,
            final(self).abilities == old(self).abilities,
    {
        if pay_cost {
            if self.science < self.config.satellite.launch_cost {
                return false;
            }
            self.science = self.science - self.config.satellite.launch_cost;
        }
        true
    }

    /// Pays for the queued launches in order. A launch that is free, or that
    /// the science covers, goes ahead and its kind is returned among the
    /// launched; the others stay queued, in their order, for a later try.
    pub fn process_launch_queue(&mut self, queue: Vec<QueuedLaunch>) -> (outcome: (
        Vec<SatelliteKind>,
        Vec<QueuedLaunch>,
    ))
        requires
            spec_launch_queue_fits(
                old(self).science as int,
                old(self).config.satellite.launch_cost as int,
                queue@,
            ),
        ensures
            final(self).science == spec_launch_queue(
                old(self).science as int,
                old(self).config.satellite.launch_cost as int,
                queue@,
            ).0,
            outcome.0@ == spec_launch_queue(
                old(self).science as int,
                old(self).config.satellite.launch_cost as int,
                queue@,
            ).1,
            outcome.1@ == spec_launch_queue(
                old(self).science as int,
                old(self).config.satellite.launch_cost as int,
                queue@,
            ).2,
            final(self).config == old(self).config,
            final(self).researched == old(self).researched,
            final(self).abilities == old(self).abilities,
    {
        let ghost start = self.science as int;
        let ghost cost = self.config.satellite.launch_cost as int;
        let mut launched: Vec<SatelliteKind> = Vec::new();
        let mut waiting: Vec<QueuedLaunch> = Vec::new();
        let mut i: usize = 0;
        while i < queue.len()
            invariant
                i <= queue@.len(),
                cost == self.config.satellite.launch_cost,
                spec_launch_queue_fits(start, cost, queue@),
                (self.science as int, launched@, waiting@) == spec_launch_queue(
                    start,
                    cost,
                    queue@.take(i as int),
                ),
                self.config == old(self).config,
                self.researched == old(self).researched,
                self.abilities == old(self).abilities,
            decreases queue.len() - i,
        {
            let launch = queue[i];
            proof {
                assert(queue@.take(i + 1).drop_last() =~= queue@.take(i as int));
                lemma_launch_queue_fits_prefix(start, cost, queue@, i + 1);
            }
            if self.pay_for_launch(launch.payment) {
                launched.push(launch.kind);
            } else {
                waiting.push(launch);
            }
            i = i + 1;
        }
        proof {
            assert(queue@.take(queue.len() as int) =~= queue@);
        }
        (launched, waiting)
    }

    /// Carries out what the model decides of a player's action. An action whose
    /// ability is missing is refused. Theoretic research and deorbiting are
    /// handed to the caller. A launch is paid for first, and refused when the
    /// science does not cover it.
    pub fn action(&mut self, action: Action) -> (effect: ActionEffect)
        requires
            action is Launch && old(self).abilities@.contains(spec_ability(action))
                ==> old(self).spec_launch_fits(),
        ensures
            final(self).config == old(self).config,
            final(self).researched == old(self).researched,
            final(self).abilities == old(self).abilities,
            !old(self).abilities@.contains(spec_ability(action)) ==> effect == ActionEffect::Refused
                && final(self).science == old(self).science,
            old(self).abilities@.contains(spec_ability(action)) ==> match action {
                Action::TheoreticResearch => effect == ActionEffect::TheoryProgress
                    && final(self).science == old(self).science,
                Action::Launch(kind) => if old(self).science
                    >= old(self).config.satellite.launch_cost {
                    effect == ActionEffect::Launch(kind) && final(self).science == old(self).science
                        - old(self).config.satellite.launch_cost
                } else {
                    effect == ActionEffect::Refused && final(self).science == old(self).science
                },
                Action::Deorbit(target) => effect == ActionEffect::Deorbit(target)
                    && final(self).science == old(self).science,
            },
            action is TheoreticResearch && old(self).abilities@.contains(Ability::TheoreticResearch)
                ==> effect == ActionEffect::TheoryProgress,
            action matches Action::Launch(kind) ==> (old(self).abilities@.contains(
                Ability::Launch(kind),
            ) && old(self).science >= old(self).config.satellite.launch_cost ==> effect
                == ActionEffect::Launch(kind)),
            action matches Action::Deorbit(target) ==> (old(self).abilities@.contains(
                Ability::Deorbit,
            ) ==> effect == ActionEffect::Deorbit(target) && final(self).science == old(
                self,
            ).science),
    {
        if !self.abilities.contains(&action.ability()) {
            return ActionEffect::Refused;
        }
        match action {
            Action::TheoreticResearch => ActionEffect::TheoryProgress,
            Action::Launch(kind) => {
                if self.pay_for_launch(true) {
                    ActionEffect::Launch(kind)
                } else {
                    ActionEffect::Refused
                }
            },
            Action::Deorbit(target) => ActionEffect::Deorbit(target),
        }
    }

    /// What becomes of a satellite whose lifetime ran out: with automatic
    /// deorbiting it starts to deorbit, and if it was not deorbiting yet and
    /// automatic deployment is allowed too, a paid replacement is queued.
    /// Returns whether it deorbits afterwards, and whether a replacement is
    /// queued.
    pub fn retire_satellite(&self, deorbiting: bool) -> (orders: (bool, bool))
        ensures
            orders.0 == (deorbiting || self.abilities@.contains(Ability::DeorbitAuto)),
            orders.1 == (self.abilities@.contains(Ability::DeorbitAuto) && !deorbiting
                && self.abilities@.contains(Ability::DeployAuto)),
    {
        if self.abilities.contains(&Ability::DeorbitAuto) {
            let relaunch = !deorbiting && self.abilities.contains(&Ability::DeployAuto);
            (true, relaunch)
        } else {
            (deorbiting, false)
        }
    }
}

impl<R: Copy> Model<R> {
    /// Buys the research with the given id, if it is not done yet, exists, and
    /// the science covers its cost; otherwise nothing changes. The research
    /// does not check what it comes after: that is for whoever offers it.
    /// An unlocked ability is added here; a stat upgrade is returned, for the
    /// caller to add to the stat's multiplier.
    pub fn research(&mut self, id: u64) -> (upgrade: Option<(Stat, R)>)
        requires
            old(self).spec_research_fits(id),
        ensures
            final(self).config == old(self).config,
            !old(self).spec_can_buy(id) ==> {
                &&& upgrade is None
                &&& final(self).science == old(self).science
                &&& final(self).researched@ == old(self).researched@
                &&& final(self).abilities@ == old(self).abilities@
            },
            old(self).spec_can_buy(id) ==> {
                let item = old(self).spec_item(id)->0;
                &&& final(self).science == old(self).science - item.cost
                &&& final(self).researched@ == old(self).researched@.insert(id)
                &&& match item.effect {
                    Research::Unlock(ability) => {
                        &&& final(self).abilities@ == old(self).abilities@.insert(ability)
                        &&& upgrade is None
                    },
                    Research::Upgrade(stat, amount) => {
                        &&& final(self).abilities@ == old(self).abilities@
                        &&& upgrade == Some((stat, amount))
                    },
                }
            },
    {
        if self.researched.contains(&id) {
            return None;
        }
        let item = match find_research(&self.config.research.items, id) {
            Some(item) => item,
            None => return None,
        };
        if self.science < item.cost {
            return None;
        }
        self.science = self.science - item.cost;
        self.researched.insert(id);
        match &item.effect {
            Research::Unlock(ability) => {
                self.abilities.insert(*ability);
                None
            },
            Research::Upgrade(stat, amount) => Some((*stat, *amount)),
        }
    }
}

/// A research once done shows as researched and cannot be bought again.
pub proof fn lemma_researched_is_final<R>(model: Model<R>, id: u64)
    requires
        model.researched@.contains(id),
    ensures
        model.spec_research_state(id) == ResearchState::Researched,
        !model.spec_can_buy(id),
{
}

/// A research shown as available for a cost that the science covers is
/// bought by `research`.
pub proof fn lemma_available_research_can_be_bought<R>(model: Model<R>, id: u64, cost: Science)
    requires
        model.spec_research_state(id) == (ResearchState::Available { cost }),
        model.science >= cost,
    ensures
        model.spec_can_buy(id),
{
}

/// Buying a research never leaves the science negative.
pub proof fn lemma_research_keeps_science<R>(model: Model<R>, id: u64)
    requires
        model.spec_can_buy(id),
    ensures
        model.science - model.spec_item(id)->0.cost >= 0,
{
}

/// A research without an entry in the configuration stays locked.
pub proof fn lemma_unknown_research_locked<R>(model: Model<R>, id: u64)
    requires
        !model.researched@.contains(id),
        forall|k: int|
            0 <= k < model.config.research.items@.len()
                ==> #[trigger] model.config.research.items@[k].id != id,
    ensures
        model.spec_research_state(id) == ResearchState::Locked,
{
    lemma_no_research_item(model.config.research.items@, id);
}

proof fn lemma_no_research_item<R>(items: Seq<ResearchItemConfig<R>>, id: u64)
    requires
        forall|k: int| 0 <= k < items.len() ==> #[trigger] items[k].id != id,
    ensures
        spec_research_item(items, id) is None,
    decreases items.len(),
{
    if items.len() > 0 {
        assert(items[0].id != id);
        assert forall|k: int| 0 <= k < items.drop_first().len() implies #[trigger] items.drop_first()[k].id
            != id by {
            assert(items.drop_first()[k] == items[k + 1]);
        }
        lemma_no_research_item(items.drop_first(), id);
    }
}

/// Working through a launch queue never leaves the science negative when it
/// was not negative before.
pub proof fn lemma_launch_queue_keeps_science(science: int, cost: int, queue: Seq<QueuedLaunch>)
    requires
        science >= 0,
    ensures
        spec_launch_queue(science, cost, queue).0 >= 0,
    decreases queue.len(),
{
    if queue.len() > 0 {
        lemma_launch_queue_keeps_science(science, cost, queue.drop_last());
    }
}

/// No queued launch is lost: each one is either launched or still waiting,
/// and only launches that cost science are left waiting.
pub proof fn lemma_launch_queue_conserves(science: int, cost: int, queue: Seq<QueuedLaunch>)
    ensures
        spec_launch_queue(science, cost, queue).1.len() + spec_launch_queue(
            science,
            cost,
            queue,
        ).2.len() == queue.len(),
        forall|k: int|
            0 <= k < spec_launch_queue(science, cost, queue).2.len()
                ==> (#[trigger] spec_launch_queue(science, cost, queue).2[k]).payment,
    decreases queue.len(),
{
    if queue.len() > 0 {
        lemma_launch_queue_conserves(science, cost, queue.drop_last());
    }
}

/// More objects in orbit never lower the collision risk, as long as the
/// boundaries are in order.
pub proof fn lemma_collision_risk_monotone(
    fewer: usize,
    more: usize,
    safe_max: usize,
    caution_max: usize,
    moderate_max: usize,
)
    requires
        fewer <= more,
        safe_max <= caution_max <= moderate_max,
    ensures
        spec_collision_risk(fewer, safe_max, caution_max, moderate_max).spec_rank()
            <= spec_collision_risk(more, safe_max, caution_max, moderate_max).spec_rank(),
{
}

/// How many launches of the queue cost science.
pub open spec fn spec_paid_count(queue: Seq<QueuedLaunch>) -> int
    decreases queue.len(),
{
    if queue.len() == 0 {
        0
    } else {
        spec_paid_count(queue.drop_last()) + if queue.last().payment {
            1int
        } else {
            0int
        }
    }
}

/// Working through a queue takes exactly `cost` for each paid launch that went
/// ahead (the paid launches of the queue less those left waiting), and
/// nothing for a free launch.
pub proof fn lemma_launch_queue_charges_paid_launches(
    science: int,
    cost: int,
    queue: Seq<QueuedLaunch>,
)
    ensures
        spec_launch_queue(science, cost, queue).0 == science - cost * (spec_paid_count(queue)
            - spec_launch_queue(science, cost, queue).2.len()),
    decreases queue.len(),
{
    if queue.len() > 0 {
        lemma_launch_queue_charges_paid_launches(science, cost, queue.drop_last());
        let p = spec_paid_count(queue.drop_last());
        let (left, launched, waiting) = spec_launch_queue(science, cost, queue.drop_last());
        let w = waiting.len() as int;
        let paid = spec_paid_count(queue);
        let still = spec_launch_queue(science, cost, queue).2.len() as int;
        if queue.last().payment {
            if left >= cost {
                assert(cost * (paid - still) == cost * (p - w) + cost) by (nonlinear_arith)
                    requires
                        paid == p + 1,
                        still == w,
                ;
            } else {
                assert(waiting.push(queue.last()).len() == w + 1);
                assert(cost * (paid - still) == cost * (p - w)) by (nonlinear_arith)
                    requires
                        paid == p + 1,
                        still == w + 1,
                ;
            }
        } else {
            assert(cost * (paid - still) == cost * (p - w)) by (nonlinear_arith)
                requires
                    paid == p,
                    still == w,
            ;
        }
    } else {
        let paid = spec_paid_count(queue);
        let still = spec_launch_queue(science, cost, queue).2.len() as int;
        assert(cost * (paid - still) == 0) by (nonlinear_arith)
            requires
                paid == 0,
                still == 0,
        ;
    }
}

/// A queue of free launches launches everything, in queue order, and leaves
/// the science as it was, whatever the science and the cost.
pub proof fn lemma_free_launches_cost_nothing(science: int, cost: int, queue: Seq<QueuedLaunch>)
    requires
        forall|k: int| 0 <= k < queue.len() ==> !(#[trigger] queue[k]).payment,
    ensures
        spec_launch_queue(science, cost, queue).0 == science,
        spec_launch_queue(science, cost, queue).1 == queue.map_values(|l: QueuedLaunch| l.kind),
        spec_launch_queue(science, cost, queue).2.len() == 0,
    decreases queue.len(),
{
    if queue.len() > 0 {
        let prefix = queue.drop_last();
        assert forall|k: int| 0 <= k < prefix.len() implies !(#[trigger] prefix[k]).payment by {
            assert(prefix[k] == queue[k]);
        }
        lemma_free_launches_cost_nothing(science, cost, prefix);
        assert(!queue[queue.len() - 1].payment);
        assert(queue.map_values(|l: QueuedLaunch| l.kind) =~= prefix.map_values(
            |l: QueuedLaunch| l.kind,
        ).push(queue.last().kind));
    }
}

/// When the science covers every paid launch of the queue, nothing is left
/// waiting: every launch goes ahead, in queue order, and the science drops by
/// the cost of the paid ones.
pub proof fn lemma_affordable_queue_launches_all(
    science: int,
    cost: int,
    queue: Seq<QueuedLaunch>,
)
    requires
        cost >= 0,
        science >= cost * spec_paid_count(queue),
    ensures
        spec_launch_queue(science, cost, queue).0 == science - cost * spec_paid_count(queue),
        spec_launch_queue(science, cost, queue).1 == queue.map_values(|l: QueuedLaunch| l.kind),
        spec_launch_queue(science, cost, queue).2.len() == 0,
    decreases queue.len(),
{
    if queue.len() > 0 {
        let prefix = queue.drop_last();
        let p = spec_paid_count(prefix);
        let q = spec_paid_count(queue);
        assert(p <= q);
        assert(cost * p <= cost * q) by (nonlinear_arith)
            requires
                cost >= 0,
                p <= q,
        ;
        lemma_affordable_queue_launches_all(science, cost, prefix);
        assert(cost * (p + 1) == cost * p + cost) by (nonlinear_arith);
        assert(queue.map_values(|l: QueuedLaunch| l.kind) =~= prefix.map_values(
            |l: QueuedLaunch| l.kind,
        ).push(queue.last().kind));
    }
}

/// The ability an action needs depends only on the kind of action: theoretic
/// research needs theoretic research, a launch needs the launch of its kind,
/// and every deorbit, of a satellite or of debris, needs `Deorbit`.
pub proof fn lemma_ability_by_kind(kind: SatelliteKind, target: InteractiveId, other: InteractiveId)
    ensures
        spec_ability(Action::TheoreticResearch) == Ability::TheoreticResearch,
        spec_ability(Action::Launch(kind)) == Ability::Launch(kind),
        spec_ability(Action::Deorbit(target)) == Ability::Deorbit,
        spec_ability(Action::Deorbit(target)) == spec_ability(Action::Deorbit(other)),
{
}

/// A research shows as available only when it is not done yet, exists, and
/// every research it comes after is done; it is offered for its configured
/// cost.
pub proof fn lemma_available_needs_every_prerequisite<R>(model: Model<R>, id: u64)
    requires
        model.spec_research_state(id) is Available,
    ensures
        !model.researched@.contains(id),
        model.spec_item(id) is Some,
        model.spec_research_state(id)->cost == model.spec_item(id)->0.cost,
        forall|k: int|
            0 <= k < model.spec_item(id)->0.after@.len() ==> model.researched@.contains(
                #[trigger] model.spec_item(id)->0.after@[k],
            ),
{
}

/// One prerequisite not done keeps a research that is not done yet locked.
pub proof fn lemma_missing_prerequisite_locks<R>(model: Model<R>, id: u64, k: int)
    requires
        !model.researched@.contains(id),
        model.spec_item(id) is Some,
        0 <= k < model.spec_item(id)->0.after@.len(),
        !model.researched@.contains(model.spec_item(id)->0.after@[k]),
    ensures
        model.spec_research_state(id) == ResearchState::Locked,
{
}

/// A research that exists, is not done yet, and whose prerequisites are all
/// done is available for its configured cost.
pub proof fn lemma_prerequisites_done_unlock<R>(model: Model<R>, id: u64)
    requires
        !model.researched@.contains(id),
        model.spec_item(id) is Some,
        forall|k: int|
            0 <= k < model.spec_item(id)->0.after@.len() ==> model.researched@.contains(
                #[trigger] model.spec_item(id)->0.after@[k],
            ),
    ensures
        model.spec_research_state(id) == (ResearchState::Available {
            cost: model.spec_item(id)->0.cost,
        }),
{
}

/// Each band of the collision risk: up to `safe_max` objects is safe; above
/// it, up to `caution_max` calls for caution; above both, up to
/// `moderate_max` is moderate; above all three, severe.
pub proof fn lemma_collision_risk_bands(
    total: usize,
    safe_max: usize,
    caution_max: usize,
    moderate_max: usize,
)
    ensures
        total <= safe_max ==> spec_collision_risk(total, safe_max, caution_max, moderate_max)
            == CollisionRisk::Safe,
        safe_max < total <= caution_max ==> spec_collision_risk(
            total,
            safe_max,
            caution_max,
            moderate_max,
        ) == CollisionRisk::Caution,
        safe_max < total && caution_max < total <= moderate_max ==> spec_collision_risk(
            total,
            safe_max,
            caution_max,
            moderate_max,
        ) == CollisionRisk::Moderate,
        safe_max < total && caution_max < total && moderate_max < total ==> spec_collision_risk(
            total,
            safe_max,
            caution_max,
            moderate_max,
        ) == CollisionRisk::Severe,
{
}

} // verus!
