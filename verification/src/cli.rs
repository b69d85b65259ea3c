//! What the command line asks for, and the context that a request is built
//! in for it.

use crate::builder::{first_frame, step_is, BuildStep, RequestBuilder};
use crate::chain::{chain_ids, Chain};
use crate::error::TemplateError;
use crate::fields::{pairs_map, FieldMap};
use crate::history::History;
use crate::request::{recipe_ids, recipe_index, texts, Recipe};
use crate::template::{failure_text, RenderError, TemplateContext};
use crate::text::{
    chars_of, distinct, find_char, first_of, lemma_position, position, same_text, string_of,
    text_of,
};
use vstd::pervasive::unreached;
use vstd::prelude::*;
use vstd::string::*;

verus! {

/// How deep the requests that chains send may nest.
pub const RECURSION_LIMIT: usize = 3;

/// The exit code that reports a response with an error status.
pub const HTTP_ERROR_EXIT_CODE: u8 = 2;

/// A named set of field values.
pub struct Profile {
    pub id: String,
    /// The fields; of two with one name the later one counts.
    pub data: Vec<(String, String)>,
}

/// What a collection file defines.
pub struct Collection {
    pub profiles: Vec<Profile>,
    pub recipes: Vec<Recipe>,
    pub chains: Vec<Chain>,
}

/// What it takes to build a request: the recipe, the profile and the
/// overrides that the user named.
#[derive(Clone, Debug, PartialEq, Eq)]
pub struct BuildRequestCommand {
    /// The id of the recipe to render into a request.
    pub recipe_id: String,
    /// The id of the profile to take field values from.
    pub profile: Option<String>,
    /// Field values that come before the profile's.
    pub overrides: Vec<(String, String)>,
}

/// Sends one request and prints what comes back.
#[derive(Clone, Debug, PartialEq, Eq)]
pub struct RequestCommand {
    pub build_request: BuildRequestCommand,
    /// Print the status of the response.
    pub status: bool,
    /// Print the headers of the request and of the response.
    pub headers: bool,
    /// Do not print the body of the response.
    pub no_body: bool,
    /// Let the exit code tell whether the response has an error status.
    pub exit_status: bool,
    /// Print the request and send nothing, not for a chain either.
    pub dry_run: bool,
}

/// Why a command could not start to build its request. Each error lists the
/// ids that could have been named.
#[derive(Clone, Debug, PartialEq, Eq)]
pub enum CommandError {
    UnknownProfile { id: String, options: Vec<String> },
    UnknownRecipe { id: String, options: Vec<String> },
}

/// A list of texts with `, ` between each two.
pub open spec fn joined(items: Seq<Seq<char>>) -> Seq<char>
    decreases items.len(),
{
    if items.len() == 0 {
        Seq::empty()
    } else if items.len() == 1 {
        items[0]
    } else {
        joined(items.drop_last()) + seq![',', ' '] + items.last()
    }
}

/// What a command error says to a reader: the id that nothing has, and the
/// ids that could have been named.
pub open spec fn command_message(error: CommandError) -> Seq<char> {
    match error {
        CommandError::UnknownProfile { id, options } => "No profile with ID `"@ + id@
            + "`; options are: "@ + joined(texts(options@)),
        CommandError::UnknownRecipe { id, options } => "No recipe with ID `"@ + id@
            + "`; options are: "@ + joined(texts(options@)),
    }
}

/// Appends the texts of `items`, with `, ` between each two, to `out`.
fn append_joined(out: &mut String, items: &Vec<String>)
    ensures
        final(out)@ == old(out)@ + joined(texts(items@)),
{
    let mut i: usize = 0;
    while i < items.len()
        invariant
            i <= items.len(),
            out@ == old(out)@ + joined(texts(items@.take(i as int))),
        decreases items.len() - i,
    {
        if i > 0 {
            out.append(", ");
            proof {
                reveal_strlit(", ");
                assert(", "@ =~= seq![',', ' ']);
            }
        }
        out.append(items[i].as_str());
        i += 1;
        proof {
            let now = texts(items@.take(i as int));
            assert(now.drop_last() =~= texts(items@.take(i - 1)));
            assert(now.last() == items@[i - 1]@);
            if i == 1 {
                assert(out@ =~= old(out)@ + now[0]);
            } else {
                assert(out@ =~= old(out)@ + (joined(now.drop_last()) + seq![',', ' ']
                    + now.last()));
            }
        }
    }
    assert(items@.take(i as int) =~= items@);
}

impl CommandError {
    /// What the error says to a reader.
    pub fn message(&self) -> (text: String)
        ensures
            text@ == command_message(*self),
    {
        let mut text = String::new();
        match self {
            CommandError::UnknownProfile { id, options } => {
                text.append("No profile with ID `");
                text.append(id.as_str());
                text.append("`; options are: ");
                append_joined(&mut text, options);
            },
            CommandError::UnknownRecipe { id, options } => {
                text.append("No recipe with ID `");
                text.append(id.as_str());
                text.append("`; options are: ");
                append_joined(&mut text, options);
            },
        }
        assert(text@ =~= command_message(*self));
        text
    }
}

/// The ids of a list of profiles.
pub open spec fn profile_ids(profiles: Seq<Profile>) -> Seq<Seq<char>> {
    profiles.map_values(|profile: Profile| profile.id@)
}

/// What is said of an argument that holds no `=`.
pub open spec fn no_equals_message(s: Seq<char>) -> Seq<char> {
    "invalid key=value: no \"=\" found in `"@ + s + "`"@
}

/// Reads an argument of the form `key=value`. The key ends at the first `=`;
/// the value is all that follows it.
pub fn parse_key_val(s: &str) -> (r: Result<(String, String), String>)
    ensures
        match r {
            Ok((key, value)) => {
                let at = first_of(s@, '=', 0);
                &&& at < s@.len()
                &&& key@ == s@.subrange(0, at)
                &&& value@ == s@.subrange(at + 1, s@.len() as int)
            },
            Err(message) => first_of(s@, '=', 0) == s@.len() && message@ == no_equals_message(s@),
        },
{
    let chars = chars_of(s);
    let at = find_char(&chars, '=', 0);
    if at == chars.len() {
        let mut message = "invalid key=value: no \"=\" found in `".to_owned();
        message.append(s);
        message.append("`");
        Err(message)
    } else {
        Ok((string_of(&chars, 0, at), string_of(&chars, at + 1, chars.len())))
    }
}

/// Whether no two of a list of ids are the same.
pub fn all_distinct(ids: &Vec<String>) -> (ok: bool)
    ensures
        ok == distinct(texts(ids@)),
{
    let mut j: usize = 0;
    while j < ids.len()
        invariant
            j <= ids.len(),
            forall|p: int, q: int|
                0 <= p < q < j ==> texts(ids@)[p] != texts(ids@)[q],
        decreases ids.len() - j,
    {
        let mut i: usize = 0;
        while i < j
            invariant
                i <= j < ids.len(),
                forall|p: int| 0 <= p < i ==> texts(ids@)[p] != texts(ids@)[j as int],
            decreases j - i,
        {
            if same_text(ids[i].as_str(), ids[j].as_str()) {
                assert(texts(ids@)[i as int] == texts(ids@)[j as int]);
                return false;
            }
            i += 1;
        }
        j += 1;
    }
    true
}

fn ids_of_chains(chains: &Vec<Chain>) -> (ids: Vec<String>)
    ensures
        texts(ids@) == chain_ids(chains@),
{
    let mut ids: Vec<String> = Vec::new();
    let mut i: usize = 0;
    while i < chains.len()
        invariant
            i <= chains.len(),
            ids.len() == i,
            forall|j: int| 0 <= j < i ==> ids@[j]@ == chains@[j].id@,
        decreases chains.len() - i,
    {
        ids.push(chains[i].id.clone());
        i += 1;
    }
    assert(texts(ids@) =~= chain_ids(chains@));
    ids
}

impl Collection {
    /// Whether each profile, each recipe and each chain has an id of its
    /// own. In such a collection an id names one thing; in any other, the
    /// first that has it.
    pub open spec fn ids_are_distinct(&self) -> bool {
        &&& distinct(profile_ids(self.profiles@))
        &&& distinct(recipe_ids(self.recipes@))
        &&& distinct(chain_ids(self.chains@))
    }

    /// Whether each profile, each recipe and each chain has an id of its
    /// own.
    pub fn has_distinct_ids(&self) -> (ok: bool)
        ensures
            ok == self.ids_are_distinct(),
    {
        all_distinct(&ids_of_profiles(&self.profiles)) && all_distinct(
            &ids_of_recipes(&self.recipes),
        ) && all_distinct(&ids_of_chains(&self.chains))
    }
}

/// Finds a profile by its id.
pub fn find_profile(profiles: &Vec<Profile>, id: &str) -> (found: Option<usize>)
    ensures
        match found {
            Some(i) => position(profile_ids(profiles@), id@) == Some(i as int) && i
                < profiles.len(),
            None => position(profile_ids(profiles@), id@) is None,
        },
{
    let mut i: usize = 0;
    while i < profiles.len()
        invariant
            i <= profiles.len(),
            forall|j: int| 0 <= j < i ==> profile_ids(profiles@)[j] != id@,
        decreases profiles.len() - i,
    {
        if same_text(profiles[i].id.as_str(), id) {
            proof {
                let ids = profile_ids(profiles@);
                lemma_position(ids, id@);
                assert(ids[i as int] == id@);
            }
            return Some(i);
        }
        i += 1;
    }
    proof {
        lemma_position(profile_ids(profiles@), id@);
    }
    None
}

fn ids_of_profiles(profiles: &Vec<Profile>) -> (ids: Vec<String>)
    ensures
        texts(ids@) == profile_ids(profiles@),
{
    let mut ids: Vec<String> = Vec::new();
    let mut i: usize = 0;
    while i < profiles.len()
        invariant
            i <= profiles.len(),
            ids.len() == i,
            forall|j: int| 0 <= j < i ==> ids@[j]@ == profiles@[j].id@,
        decreases profiles.len() - i,
    {
        ids.push(profiles[i].id.clone());
        i += 1;
    }
    ids
}

fn ids_of_recipes(recipes: &Vec<Recipe>) -> (ids: Vec<String>)
    ensures
        texts(ids@) == recipe_ids(recipes@),
{
    let mut ids: Vec<String> = Vec::new();
    let mut i: usize = 0;
    while i < recipes.len()
        invariant
            i <= recipes.len(),
            ids.len() == i,
            forall|j: int| 0 <= j < i ==> ids@[j]@ == recipes@[j].id@,
        decreases recipes.len() - i,
    {
        ids.push(recipes[i].id.clone());
        i += 1;
    }
    ids
}

impl BuildRequestCommand {
    /// The fields of the profile that the command names: none where it names
    /// no profile.
    pub open spec fn profile_fields(&self, profiles: Seq<Profile>) -> Map<Seq<char>, Seq<char>> {
        match self.profile {
            None => Map::empty(),
            Some(id) => match position(profile_ids(profiles), id@) {
                Some(i) => pairs_map(profiles[i].data@),
                None => Map::empty(),
            },
        }
    }

    /// Whether `context` is what the command's request is built in: the
    /// profile that it names and its fields, its overrides, the chains and
    /// recipes of the collection, the history, the transport if requests may
    /// be sent for chains, and the budget `RECURSION_LIMIT`.
    pub open spec fn sets_up(
        &self,
        context: TemplateContext,
        collection: Collection,
        history: History,
        trigger_dependencies: bool,
        now: u64,
    ) -> bool {
        &&& text_of(context.profile_id) == text_of(self.profile)
        &&& context.profile@ == self.profile_fields(collection.profiles@)
        &&& context.overrides@ == pairs_map(self.overrides@)
        &&& context.chains == collection.chains
        &&& context.recipes == collection.recipes
        &&& context.history == history
        &&& context.transport == trigger_dependencies
        &&& context.recursion_budget == RECURSION_LIMIT
        &&& context.now == now
    }

    /// The context that the command's request is built in. The profile, if
    /// one is named, and the recipe have to be in the collection.
    pub fn context(
        &self,
        collection: Collection,
        history: History,
        trigger_dependencies: bool,
        now: u64,
    ) -> (r: Result<TemplateContext, CommandError>)
        ensures
            match r {
                Ok(context) => {
                    &&& self.profile matches Some(id) ==> position(
                        profile_ids(collection.profiles@),
                        id@,
                    ) is Some
                    &&& recipe_index(collection.recipes@, self.recipe_id@) is Some
                    &&& self.sets_up(context, collection, history, trigger_dependencies, now)
                },
                Err(CommandError::UnknownProfile { id, options }) => {
                    &&& self.profile matches Some(named)
                    &&& position(profile_ids(collection.profiles@), named@) is None
                    &&& id@ == named@
                    &&& texts(options@) == profile_ids(collection.profiles@)
                },
                Err(CommandError::UnknownRecipe { id, options }) => {
                    &&& self.profile matches Some(named) ==> position(
                        profile_ids(collection.profiles@),
                        named@,
                    ) is Some
                    &&& recipe_index(collection.recipes@, self.recipe_id@) is None
                    &&& id@ == self.recipe_id@
                    &&& texts(options@) == recipe_ids(collection.recipes@)
                },
            },
    {
        let Collection { profiles, recipes, chains } = collection;
        let (profile_id, profile) = match &self.profile {
            None => (None, FieldMap::new()),
            Some(id) => match find_profile(&profiles, id.as_str()) {
                Some(i) => (Some(id.clone()), FieldMap::from_pairs(&profiles[i].data)),
                None => {
                    return Err(
                        CommandError::UnknownProfile {
                            id: id.clone(),
                            options: ids_of_profiles(&profiles),
                        },
                    );
                },
            },
        };
        if crate::request::find_recipe(&recipes, self.recipe_id.as_str()).is_none() {
            return Err(
                CommandError::UnknownRecipe {
                    id: self.recipe_id.clone(),
                    options: ids_of_recipes(&recipes),
                },
            );
        }
        Ok(
            TemplateContext {
                profile_id,
                profile,
                overrides: FieldMap::from_pairs(&self.overrides),
                chains,
                recipes,
                history,
                transport: trigger_dependencies,
                recursion_budget: RECURSION_LIMIT,
                now,
            },
        )
    }

    /// Starts to build the request that the command asks for. The context
    /// that it is built in comes back with the first step of the build.
    pub fn build_request(
        &self,
        collection: Collection,
        history: History,
        trigger_dependencies: bool,
        now: u64,
    ) -> (r: Result<(TemplateContext, BuildStep), CommandError>)
        ensures
            match r {
                Ok((context, step)) => {
                    &&& self.profile matches Some(named) ==> position(
                        profile_ids(collection.profiles@),
                        named@,
                    ) is Some
                    &&& recipe_index(collection.recipes@, self.recipe_id@) matches Some(recipe)
                    &&& exists|initial: TemplateContext|
                        {
                            &&& #[trigger] self.sets_up(
                                initial,
                                collection,
                                history,
                                trigger_dependencies,
                                now,
                            )
                            &&& step_is(
                                step,
                                initial.driven(seq![first_frame(recipe, RECURSION_LIMIT, 0)]),
                                initial,
                                context,
                            )
                        }
                },
                Err(CommandError::UnknownProfile { id, options }) => {
                    &&& self.profile matches Some(named)
                    &&& position(profile_ids(collection.profiles@), named@) is None
                    &&& id@ == named@
                    &&& texts(options@) == profile_ids(collection.profiles@)
                },
                Err(CommandError::UnknownRecipe { id, options }) => {
                    &&& self.profile matches Some(named) ==> position(
                        profile_ids(collection.profiles@),
                        named@,
                    ) is Some
                    &&& recipe_index(collection.recipes@, self.recipe_id@) is None
                    &&& id@ == self.recipe_id@
                    &&& texts(options@) == recipe_ids(collection.recipes@)
                },
            },
    {
        let mut context = match self.context(collection, history, trigger_dependencies, now) {
            Ok(context) => context,
            Err(error) => {
                return Err(error);
            },
        };
        match RequestBuilder::start(&mut context, self.recipe_id.as_str()) {
            Some(step) => {
                Ok((context, step))
            },
            None => unreached(),
        }
    }
}

impl RequestCommand {
    /// Whether requests may be sent for chains while the command's request is
    /// built: not in a dry run.
    pub fn trigger_dependencies(&self) -> (allowed: bool)
        ensures
            allowed == !self.dry_run,
    {
        !self.dry_run
    }

    /// The exit code for a response with this status: `HTTP_ERROR_EXIT_CODE`
    /// where the exit code is to tell and the status is 400 or more, else 0.
    pub fn exit_code(&self, status: u16) -> (code: u8)
        ensures
            code == if self.exit_status && status >= 400 {
                HTTP_ERROR_EXIT_CODE
            } else {
                0
            },
    {
        if self.exit_status && status >= 400 {
            HTTP_ERROR_EXIT_CODE
        } else {
            0
        }
    }

    /// What the user is told of a build that failed: which template failed
    /// and why. That a chain could not send its request is, in a dry run,
    /// the user's own choice, and said so first.
    pub fn failure_message(&self, failure: &RenderError) -> (text: String)
        ensures
            text@ == if self.dry_run && failure.error is TriggerDisabled {
                "Triggered requests are disabled with `--dry-run`: "@ + failure_text(failure@)
            } else {
                failure_text(failure@)
            },
    {
        let mut text = String::new();
        if self.dry_run && failure.error.has_trigger_disabled_error() {
            text.append("Triggered requests are disabled with `--dry-run`: ");
        }
        let told = failure.message();
        text.append(told.as_str());
        assert(Seq::<char>::empty() + failure_text(failure@) =~= failure_text(failure@));
        text
    }
}

} // verus!
