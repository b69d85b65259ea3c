//! The history of requests: what was sent, and what came back.

use crate::request::{Request, Response};
use crate::text::{same_optional_text, same_text, text_of};
use vstd::prelude::*;

verus! {

/// How a request ended.
#[derive(Debug, PartialEq, Eq)]
pub enum Outcome {
    /// Nothing is known yet.
    Pending,
    /// A response came, at `time` (in seconds).
    Success { response: Response, time: u64 },
    /// No response came.
    Failure { message: String },
}

/// A request that was sent, and how it ended.
#[derive(Debug, PartialEq, Eq)]
pub struct Record {
    pub request: Request,
    pub outcome: Outcome,
}

/// The records of the requests that were sent, in the order in which they
/// were added. A record's id is its position.
pub struct History {
    records: Vec<Record>,
}

/// The outcome that the result of a send is recorded as.
pub open spec fn outcome_of(result: Result<Response, String>, time: u64) -> Outcome {
    match result {
        Ok(response) => Outcome::Success { response, time },
        Err(message) => Outcome::Failure { message },
    }
}

impl History {
    /// The records, oldest first.
    pub closed spec fn records(self) -> Seq<Record> {
        self.records@
    }

    /// Whether record `id` holds a successful response to a request of this
    /// recipe under this profile.
    pub open spec fn is_success_of(self, id: int, recipe: Seq<char>, profile: Option<Seq<char>>)
        -> bool {
        &&& 0 <= id < self.records().len()
        &&& self.records()[id].request.recipe_id@ == recipe
        &&& text_of(self.records()[id].request.profile_id) == profile
        &&& self.records()[id].outcome is Success
    }

    /// The latest record before `end` that holds a successful response for
    /// this recipe and profile.
    pub open spec fn last_success_before(
        self,
        end: int,
        recipe: Seq<char>,
        profile: Option<Seq<char>>,
    ) -> Option<int>
        decreases end,
    {
        if end <= 0 {
            None
        } else if self.is_success_of(end - 1, recipe, profile) {
            Some(end - 1)
        } else {
            self.last_success_before(end - 1, recipe, profile)
        }
    }

    /// The latest record that holds a successful response for this recipe and
    /// profile.
    pub open spec fn last_success(self, recipe: Seq<char>, profile: Option<Seq<char>>) -> Option<
        int,
    > {
        self.last_success_before(self.records().len() as int, recipe, profile)
    }

    /// A history without records.
    pub fn new() -> (history: History)
        ensures
            history.records().len() == 0,
    {
        History { records: Vec::new() }
    }

    /// The number of records.
    pub fn len(&self) -> (n: usize)
        ensures
            n == self.records().len(),
    {
        self.records.len()
    }

    /// Records a request that is about to be sent, with its outcome pending,
    /// and returns the record's id.
    pub fn add(&mut self, request: Request) -> (id: usize)
        ensures
            id == old(self).records().len(),
            final(self).records() == old(self).records().push(
                Record { request, outcome: Outcome::Pending },
            ),
    {
        let id = self.records.len();
        self.records.push(Record { request, outcome: Outcome::Pending });
        id
    }

    /// Records how the request of record `id` ended: a response, received at
    /// `time`, or the message of a failure. The first outcome of a record
    /// stands: for a record that has one, and for an id that no record has,
    /// nothing changes and the answer is `false`.
    pub fn add_response(&mut self, id: usize, result: Result<Response, String>, time: u64) -> (recorded:
        bool)
        ensures
            recorded == (id < old(self).records().len() && old(self).records()[id as int].outcome
                is Pending),
            recorded ==> final(self).records() == old(self).records().update(
                id as int,
                Record {
                    request: old(self).records()[id as int].request,
                    outcome: outcome_of(result, time),
                },
            ),
            !recorded ==> final(self).records() == old(self).records(),
    {
        if id >= self.records.len() {
            return false;
        }
        let pending = match &self.records[id].outcome {
            Outcome::Pending => true,
            _ => false,
        };
        if !pending {
            return false;
        }
        let outcome = match result {
            Ok(response) => Outcome::Success { response, time },
            Err(message) => Outcome::Failure { message },
        };
        let record = self.records.remove(id);
        self.records.insert(id, Record { request: record.request, outcome });
        true
    }

    /// Record `id`.
    pub fn get(&self, id: usize) -> (record: Option<&Record>)
        ensures
            match record {
                Some(r) => id < self.records().len() && *r == self.records()[id as int],
                None => id >= self.records().len(),
            },
    {
        if id < self.records.len() {
            Some(&self.records[id])
        } else {
            None
        }
    }

    /// The id of the latest record that holds a successful response for this
    /// recipe and profile.
    pub fn last_success_id(&self, recipe_id: &str, profile_id: &Option<String>) -> (found: Option<
        usize,
    >)
        ensures
            match found {
                Some(id) => self.last_success(recipe_id@, text_of(*profile_id)) == Some(id as int)
                    && self.is_success_of(id as int, recipe_id@, text_of(*profile_id)),
                None => self.last_success(recipe_id@, text_of(*profile_id)) is None,
            },
    {
        let mut end: usize = self.records.len();
        while end > 0
            invariant
                end <= self.records.len(),
                self.last_success_before(end as int, recipe_id@, text_of(*profile_id))
                    == self.last_success(recipe_id@, text_of(*profile_id)),
            decreases end,
        {
            let id = end - 1;
            let success = match &self.records[id].outcome {
                Outcome::Success { .. } => true,
                _ => false,
            };
            if success && same_text(self.records[id].request.recipe_id.as_str(), recipe_id)
                && same_optional_text(&self.records[id].request.profile_id, profile_id) {
                return Some(id);
            }
            end = id;
        }
        None
    }

    /// The latest successful response for this recipe and profile, with the
    /// time at which it came.
    pub fn get_last_success(&self, recipe_id: &str, profile_id: &Option<String>) -> (found: Option<
        (&Response, u64),
    >)
        ensures
            match found {
                Some((response, time)) => {
                    &&& self.last_success(recipe_id@, text_of(*profile_id)) matches Some(id)
                    &&& 0 <= id < self.records().len()
                    &&& self.records()[id].outcome == (Outcome::Success {
                        response: *response,
                        time,
                    })
                },
                None => self.last_success(recipe_id@, text_of(*profile_id)) is None,
            },
    {
        match self.last_success_id(recipe_id, profile_id) {
            Some(id) => match &self.records[id].outcome {
                Outcome::Success { response, time } => Some((response, *time)),
                _ => None,
            },
            None => None,
        }
    }
}

/// Records that agree, below `end`, on what makes a success of a recipe
/// and profile have the same last success below `end`.
proof fn lemma_same_successes(
    a: History,
    b: History,
    end: int,
    recipe: Seq<char>,
    profile: Option<Seq<char>>,
)
    requires
        forall|i: int|
            0 <= i < end ==> a.is_success_of(i, recipe, profile) == b.is_success_of(
                i,
                recipe,
                profile,
            ),
    ensures
        a.last_success_before(end, recipe, profile) == b.last_success_before(end, recipe, profile),
    decreases end,
{
    if end > 0 {
        lemma_same_successes(a, b, end - 1, recipe, profile);
    }
}

/// What lies behind the last success is no success.
proof fn lemma_last_success(h: History, end: int, recipe: Seq<char>, profile: Option<Seq<char>>)
    ensures
        match h.last_success_before(end, recipe, profile) {
            Some(id) => 0 <= id < end && h.is_success_of(id, recipe, profile) && forall|i: int|
                id < i < end ==> !h.is_success_of(i, recipe, profile),
            None => forall|i: int| 0 <= i < end ==> !h.is_success_of(i, recipe, profile),
        },
    decreases end,
{
    if end > 0 && !h.is_success_of(end - 1, recipe, profile) {
        lemma_last_success(h, end - 1, recipe, profile);
    }
}

/// A request that is recorded with its outcome pending changes no last
/// success: what history offers to chains is the same as before, for every
/// recipe and profile.
pub proof fn lemma_request_is_no_success(
    before: History,
    after: History,
    request: Request,
    recipe: Seq<char>,
    profile: Option<Seq<char>>,
)
    requires
        after.records() == before.records().push(Record { request, outcome: Outcome::Pending }),
    ensures
        after.last_success(recipe, profile) == before.last_success(recipe, profile),
{
    let n = before.records().len() as int;
    lemma_same_successes(after, before, n, recipe, profile);
}

/// A request that is recorded to have failed changes no last success
/// either: a chain that had no response to read still has none, and one that
/// had an older response still reads that.
pub proof fn lemma_failure_is_no_success(
    before: History,
    after: History,
    id: int,
    message: String,
    recipe: Seq<char>,
    profile: Option<Seq<char>>,
)
    requires
        0 <= id < before.records().len(),
        before.records()[id].outcome is Pending,
        after.records() == before.records().update(
            id,
            Record {
                request: before.records()[id].request,
                outcome: Outcome::Failure { message },
            },
        ),
    ensures
        after.last_success(recipe, profile) == before.last_success(recipe, profile),
{
    let n = before.records().len() as int;
    lemma_same_successes(after, before, n, recipe, profile);
}

/// A response that is recorded for a request is the last success of the
/// request's recipe and profile, unless a later record holds one; the last
/// success of any other recipe or profile is what it was.
pub proof fn lemma_response_is_found(
    before: History,
    after: History,
    id: int,
    response: Response,
    time: u64,
    recipe: Seq<char>,
    profile: Option<Seq<char>>,
)
    requires
        0 <= id < before.records().len(),
        before.records()[id].outcome is Pending,
        after.records() == before.records().update(
            id,
            Record {
                request: before.records()[id].request,
                outcome: Outcome::Success { response, time },
            },
        ),
    ensures
        ({
            let request = before.records()[id].request;
            let earlier = before.last_success(recipe, profile);
            let found = after.last_success(recipe, profile);
            if request.recipe_id@ == recipe && text_of(request.profile_id) == profile {
                found == if earlier is Some && earlier->0 > id {
                    earlier
                } else {
                    Some(id)
                }
            } else {
                found == earlier
            }
        }),
{
    let n = before.records().len() as int;
    let request = before.records()[id].request;
    lemma_last_success(before, n, recipe, profile);
    lemma_last_success(after, n, recipe, profile);
    if request.recipe_id@ == recipe && text_of(request.profile_id) == profile {
        assert(after.is_success_of(id, recipe, profile));
        assert forall|i: int| 0 <= i < n && i != id implies after.is_success_of(i, recipe, profile)
            == before.is_success_of(i, recipe, profile) by {}
    } else {
        lemma_same_successes(after, before, n, recipe, profile);
    }
}

} // verus!
