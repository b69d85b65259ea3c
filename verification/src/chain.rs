//! Chains: values taken from the responses of other recipes, and the rule
//! that decides whether a chain reads history or sends a request.

use crate::text::{lemma_position, position, same_text};
use vstd::prelude::*;

verus! {

/// When a chain sends its recipe's request instead of reading what history
/// holds of it.
#[derive(Clone, Copy, Debug, PartialEq, Eq)]
pub enum TriggerPolicy {
    /// Never: the chain reads the last successful response.
    UseLastSuccess,
    /// Every time the chain is resolved.
    AlwaysTrigger,
    /// Where history holds no successful response, or the last one is older
    /// than `max_age` seconds.
    TriggerIfStale { max_age: u64 },
}

/// A named value taken from the response of a recipe.
#[derive(Clone, Debug)]
pub struct Chain {
    pub id: String,
    /// The id of the recipe whose response is read.
    pub source: String,
    /// The JSON path of the value inside the response body; without one the
    /// value is the whole body.
    pub path: Option<String>,
    pub trigger: TriggerPolicy,
    /// A sensitive value is to be masked wherever it is shown. Rendering
    /// hands it out as it is.
    pub sensitive: bool,
}

/// Where a chain's value is to come from.
#[derive(Clone, Copy, Debug, PartialEq, Eq)]
pub enum ChainPlan {
    /// From the last successful response in history.
    Read,
    /// From a request sent now, built with `budget` nested requests left.
    Trigger { budget: usize },
}

/// Why a chain may not send its request.
#[derive(Clone, Copy, Debug, PartialEq, Eq)]
pub enum PlanError {
    TriggerDisabled,
    RecursionLimitExceeded,
}

/// Whether a policy asks for a request to be sent, given the age in seconds
/// of the last successful response (`None` without one).
pub open spec fn demands_trigger(policy: TriggerPolicy, age: Option<u64>) -> bool {
    match policy {
        TriggerPolicy::UseLastSuccess => false,
        TriggerPolicy::AlwaysTrigger => true,
        TriggerPolicy::TriggerIfStale { max_age } => match age {
            None => true,
            Some(age) => age > max_age,
        },
    }
}

/// The plan for a chain. A policy that asks for no request reads history. One
/// that asks for a request needs a transport first, and then a budget that is
/// not used up; the request is built with one less.
pub open spec fn planned(policy: TriggerPolicy, age: Option<u64>, transport: bool, budget: usize)
    -> Result<ChainPlan, PlanError> {
    if !demands_trigger(policy, age) {
        Ok(ChainPlan::Read)
    } else if !transport {
        Err(PlanError::TriggerDisabled)
    } else if budget == 0 {
        Err(PlanError::RecursionLimitExceeded)
    } else {
        Ok(ChainPlan::Trigger { budget: (budget - 1) as usize })
    }
}

/// The ids of a list of chains.
pub open spec fn chain_ids(chains: Seq<Chain>) -> Seq<Seq<char>> {
    chains.map_values(|chain: Chain| chain.id@)
}

/// The position of the first chain with this id.
pub open spec fn chain_index(chains: Seq<Chain>, id: Seq<char>) -> Option<int> {
    position(chain_ids(chains), id)
}

impl TriggerPolicy {
    /// Whether the policy asks for a request to be sent.
    pub fn demands_trigger(&self, age: Option<u64>) -> (demands: bool)
        ensures
            demands == demands_trigger(*self, age),
    {
        match self {
            TriggerPolicy::UseLastSuccess => false,
            TriggerPolicy::AlwaysTrigger => true,
            TriggerPolicy::TriggerIfStale { max_age } => match age {
                None => true,
                Some(age) => age > *max_age,
            },
        }
    }

    /// Decides where a chain's value comes from.
    pub fn plan(&self, age: Option<u64>, transport: bool, budget: usize) -> (plan: Result<
        ChainPlan,
        PlanError,
    >)
        ensures
            plan == planned(*self, age, transport, budget),
    {
        if !self.demands_trigger(age) {
            Ok(ChainPlan::Read)
        } else if !transport {
            Err(PlanError::TriggerDisabled)
        } else if budget == 0 {
            Err(PlanError::RecursionLimitExceeded)
        } else {
            Ok(ChainPlan::Trigger { budget: budget - 1 })
        }
    }
}

/// Finds a chain by its id.
pub fn find_chain(chains: &Vec<Chain>, id: &str) -> (found: Option<usize>)
    ensures
        match found {
            Some(i) => chain_index(chains@, id@) == Some(i as int) && i < chains.len(),
            None => chain_index(chains@, id@) is None,
        },
{
    let mut i: usize = 0;
    while i < chains.len()
        invariant
            i <= chains.len(),
            forall|j: int| 0 <= j < i ==> chain_ids(chains@)[j] != id@,
        decreases chains.len() - i,
    {
        if same_text(chains[i].id.as_str(), id) {
            proof {
                let ids = chain_ids(chains@);
                lemma_position(ids, id@);
                assert(ids[i as int] == id@);
            }
            return Some(i);
        }
        i += 1;
    }
    proof {
        lemma_position(chain_ids(chains@), id@);
    }
    None
}

/// A request is sent for a chain only with a transport and a budget that is
/// not used up, and the request is built with a smaller budget: nested
/// requests cannot go on without end.
pub proof fn lemma_trigger_spends_budget(
    policy: TriggerPolicy,
    age: Option<u64>,
    transport: bool,
    budget: usize,
)
    ensures
        planned(policy, age, transport, budget) matches Ok(ChainPlan::Trigger { budget: nested })
            ==> transport && nested < budget,
        budget == 0 ==> !(planned(policy, age, transport, budget) matches Ok(
            ChainPlan::Trigger { .. },
        )),
        demands_trigger(policy, age) && transport && budget == 0 ==> planned(
            policy,
            age,
            transport,
            budget,
        ) == Err::<ChainPlan, PlanError>(PlanError::RecursionLimitExceeded),
{
}

/// Without a transport, a chain whose policy asks for a request fails with
/// `TriggerDisabled`, whatever the budget and whatever history holds; a chain
/// whose policy asks for none is not affected.
pub proof fn lemma_trigger_needs_transport(policy: TriggerPolicy, age: Option<u64>, budget: usize)
    ensures
        demands_trigger(policy, age) ==> planned(policy, age, false, budget) == Err::<
            ChainPlan,
            PlanError,
        >(PlanError::TriggerDisabled),
        !demands_trigger(policy, age) ==> planned(policy, age, false, budget) == Ok::<
            ChainPlan,
            PlanError,
        >(ChainPlan::Read),
{
}

} // verus!
