//! Rendering a template: every placeholder is replaced by the value of its
//! key, from the left to the right, and the first key without a value ends
//! the rendering.

use crate::chain::{chain_index, find_chain, planned, Chain, ChainPlan, PlanError};
use crate::error::{append_quoted, message_text, quoted, TemplateError};
use crate::fields::{field_value, resolve_field, FieldMap};
use crate::history::{History, Outcome};
use crate::json::{extract, extracted, ExtractError, ExtractFailure};
use crate::key::{parsed_key, KeyKind, TemplateKey};
use crate::lexer::{
    lemma_pieces_of_plain_text, next_placeholder, pieces, segment_pieces, split_template, Piece,
    Segment,
};
use crate::request::Recipe;
use crate::text::{append_chars, chars_of, text_of};
use vstd::pervasive::unreached;
use vstd::prelude::*;
use vstd::string::*;

verus! {

/// Text with placeholders: `{{name}}` stands for the value of a field,
/// `{{chains.id}}` for the value of a chain.
#[derive(Clone, Debug, PartialEq, Eq)]
pub struct TemplateString(pub String);

impl View for TemplateString {
    type V = Seq<char>;

    open spec fn view(&self) -> Seq<char> {
        self.0@
    }
}

/// All that the placeholders of a template are resolved from.
pub struct TemplateContext {
    /// The id of the profile in use; history is read and written under it.
    pub profile_id: Option<String>,
    /// The fields of the profile in use.
    pub profile: FieldMap,
    /// Fields given by the caller; they come before the profile's.
    pub overrides: FieldMap,
    pub chains: Vec<Chain>,
    pub recipes: Vec<Recipe>,
    pub history: History,
    /// Whether there is a transport to send a chain's request with.
    pub transport: bool,
    /// How deep the requests that chains send may nest.
    pub recursion_budget: usize,
    /// The time of the render, in seconds.
    pub now: u64,
}

/// What a key resolves to.
pub enum Resolution {
    Value(Seq<char>),
    Failed(TemplateError<Seq<char>, Seq<char>>),
    /// The value is to be taken from the response to the request of the
    /// recipe of chain number `chain`, built with this budget and sent now.
    Trigger { chain: int, budget: usize },
}

/// How far the rendering of a template has come.
pub enum Progress {
    Finished(Seq<char>),
    Failed(TemplateError<Seq<char>, Seq<char>>),
    /// Piece number `segment` is the key of a chain that sends a request
    /// first; `output` is what the pieces before it rendered to.
    Suspended { segment: int, output: Seq<char>, chain: int, budget: usize },
}

/// A resolved key, as `Resolution` describes it.
pub enum Resolved<'a> {
    Value(String),
    Failed(TemplateError<&'a str>),
    Trigger { chain: usize, budget: usize },
}

impl<'a> View for Resolved<'a> {
    type V = Resolution;

    open spec fn view(&self) -> Resolution {
        match *self {
            Resolved::Value(text) => Resolution::Value(text@),
            Resolved::Failed(error) => Resolution::Failed(error@),
            Resolved::Trigger { chain, budget } => Resolution::Trigger {
                chain: chain as int,
                budget,
            },
        }
    }
}

/// The state of a rendering, as `Progress` describes it.
pub enum Rendering<'a> {
    Finished(String),
    Failed(TemplateError<&'a str>),
    Suspended { segment: usize, output: String, chain: usize, budget: usize },
}

impl<'a> View for Rendering<'a> {
    type V = Progress;

    open spec fn view(&self) -> Progress {
        match *self {
            Rendering::Finished(text) => Progress::Finished(text@),
            Rendering::Failed(error) => Progress::Failed(error@),
            Rendering::Suspended { segment, output, chain, budget } => Progress::Suspended {
                segment: segment as int,
                output: output@,
                chain: chain as int,
                budget,
            },
        }
    }
}

/// A template that failed to render, and why.
#[derive(Clone, Debug, PartialEq, Eq)]
pub struct RenderError {
    pub template: String,
    pub error: TemplateError<String>,
}

/// A failed rendering as text.
pub struct FailureText {
    pub template: Seq<char>,
    pub error: TemplateError<Seq<char>, Seq<char>>,
}

impl View for RenderError {
    type V = FailureText;

    open spec fn view(&self) -> FailureText {
        FailureText { template: self.template@, error: self.error@ }
    }
}

/// What a failed rendering says to a reader: which template failed, and why.
pub open spec fn failure_text(failure: FailureText) -> Seq<char> {
    quoted("Error rendering template "@, failure.template) + ": "@ + message_text(failure.error)
}

impl RenderError {
    /// What the failure says to a reader.
    pub fn message(&self) -> (text: String)
        ensures
            text@ == failure_text(self@),
    {
        let mut text = String::new();
        append_quoted(&mut text, "Error rendering template ", self.template.as_str());
        text.append(": ");
        let reason = self.error.message();
        text.append(reason.as_str());
        assert(text@ =~= failure_text(self@));
        text
    }
}

/// The seconds between a response that came at `time` and `now`.
pub open spec fn age_at(now: u64, time: u64) -> u64 {
    if now >= time {
        (now - time) as u64
    } else {
        0
    }
}

/// The value that a chain takes out of a response body: the body itself
/// where the chain has no path, else what the path selects in it.
pub open spec fn chain_value(path: Option<Seq<char>>, id: Seq<char>, body: Seq<char>) -> Result<
    Seq<char>,
    TemplateError<Seq<char>, Seq<char>>,
> {
    match path {
        None => Ok(body),
        Some(path) => match extracted(path, body) {
            Ok(value) => Ok(value),
            Err(ExtractFailure::Path(reason)) => Err(
                TemplateError::ChainJsonPath { chain_id: id, path, reason },
            ),
            Err(ExtractFailure::Document(reason)) => Err(
                TemplateError::ChainJsonResponse { chain_id: id, reason },
            ),
            Err(ExtractFailure::Count(matches)) => Err(
                TemplateError::ChainInvalidResult { chain_id: id, matches },
            ),
        },
    }
}

/// Takes a chain's value out of a response body.
pub fn value_in_body<'a>(chain: &'a Chain, id: &'a str, body: &String) -> (r: Result<
    String,
    TemplateError<&'a str>,
>)
    ensures
        match r {
            Ok(value) => chain_value(text_of(chain.path), id@, body@) == Ok::<
                Seq<char>,
                TemplateError<Seq<char>, Seq<char>>,
            >(value@),
            Err(e) => chain_value(text_of(chain.path), id@, body@) == Err::<
                Seq<char>,
                TemplateError<Seq<char>, Seq<char>>,
            >(e@),
        },
{
    match &chain.path {
        None => Ok(body.clone()),
        Some(path) => match extract(path.as_str(), body.as_str()) {
            Ok(value) => Ok(value),
            Err(ExtractError::Path { reason }) => Err(
                TemplateError::ChainJsonPath { chain_id: id, path: path.as_str(), reason },
            ),
            Err(ExtractError::Document { reason }) => Err(
                TemplateError::ChainJsonResponse { chain_id: id, reason },
            ),
            Err(ExtractError::Count(matches)) => Err(
                TemplateError::ChainInvalidResult { chain_id: id, matches },
            ),
        },
    }
}

impl TemplateContext {
    /// The latest record of a successful response to the recipe `source`
    /// under the profile in use.
    pub open spec fn last_success(&self, source: Seq<char>) -> Option<int> {
        self.history.last_success(source, text_of(self.profile_id))
    }

    /// The age of that response.
    pub open spec fn last_success_age(&self, source: Seq<char>) -> Option<u64> {
        match self.last_success(source) {
            Some(id) => match self.history.records()[id].outcome {
                Outcome::Success { time, .. } => Some(age_at(self.now, time)),
                _ => None,
            },
            None => None,
        }
    }

    /// The body of that response.
    pub open spec fn last_success_body(&self, source: Seq<char>) -> Option<Seq<char>> {
        match self.last_success(source) {
            Some(id) => match self.history.records()[id].outcome {
                Outcome::Success { response, .. } => Some(response.body@),
                _ => None,
            },
            None => None,
        }
    }

    /// What the chain with this id resolves to. The chain has to exist. Its
    /// policy, the age of the last successful response to its recipe, the
    /// transport and the budget decide between reading history and sending a
    /// request; read from history, the value is taken out of the body of that
    /// response.
    pub open spec fn chain_resolution(&self, id: Seq<char>, transport: bool, budget: usize)
        -> Resolution {
        match chain_index(self.chains@, id) {
            None => Resolution::Failed(TemplateError::ChainUnknown { chain_id: id }),
            Some(i) => {
                let chain = self.chains@[i];
                match planned(chain.trigger, self.last_success_age(chain.source@), transport, budget) {
                    Err(PlanError::TriggerDisabled) => Resolution::Failed(
                        TemplateError::TriggerDisabled { chain_id: id },
                    ),
                    Err(PlanError::RecursionLimitExceeded) => Resolution::Failed(
                        TemplateError::RecursionLimitExceeded { chain_id: id },
                    ),
                    Ok(ChainPlan::Trigger { budget }) => Resolution::Trigger { chain: i, budget },
                    Ok(ChainPlan::Read) => match self.last_success_body(chain.source@) {
                        None => Resolution::Failed(
                            TemplateError::ChainNoResponse { chain_id: id },
                        ),
                        Some(body) => match chain_value(text_of(chain.path), id, body) {
                            Ok(value) => Resolution::Value(value),
                            Err(e) => Resolution::Failed(e),
                        },
                    },
                }
            },
        }
    }

    /// What a parsed key resolves to: a field to its value in the overrides
    /// or else in the profile, a chain as `chain_resolution` says.
    pub open spec fn key_resolution(&self, key: KeyKind, transport: bool, budget: usize)
        -> Resolution {
        match key {
            KeyKind::Field(name) => match field_value(name, self.overrides@, self.profile@) {
                Some(value) => Resolution::Value(value),
                None => Resolution::Failed(TemplateError::FieldUnknown { field: name }),
            },
            KeyKind::Chain(id) => self.chain_resolution(id, transport, budget),
        }
    }

    /// What the text between the braces of a placeholder resolves to.
    pub open spec fn resolution(&self, raw: Seq<char>, transport: bool, budget: usize)
        -> Resolution {
        match parsed_key(raw) {
            None => Resolution::Failed(TemplateError::InvalidKey { key: raw }),
            Some(key) => self.key_resolution(key, transport, budget),
        }
    }

    /// Renders the pieces from number `from` on behind `output`: text is
    /// copied, a key is replaced by its value. The first key that fails ends
    /// the rendering with its error; the first chain that sends a request
    /// suspends it.
    pub open spec fn progress(
        &self,
        pieces: Seq<Piece>,
        from: int,
        output: Seq<char>,
        transport: bool,
        budget: usize,
    ) -> Progress
        decreases pieces.len() - from,
    {
        if from < 0 || from >= pieces.len() {
            Progress::Finished(output)
        } else {
            match pieces[from] {
                Piece::Literal(text) => self.progress(
                    pieces,
                    from + 1,
                    output + text,
                    transport,
                    budget,
                ),
                Piece::Key(raw) => match self.resolution(raw, transport, budget) {
                    Resolution::Value(value) => self.progress(
                        pieces,
                        from + 1,
                        output + value,
                        transport,
                        budget,
                    ),
                    Resolution::Failed(error) => Progress::Failed(error),
                    Resolution::Trigger { chain, budget } => Progress::Suspended {
                        segment: from,
                        output,
                        chain,
                        budget,
                    },
                },
            }
        }
    }

    /// Resolves a chain.
    pub fn resolve_chain<'a>(&'a self, id: &'a str, transport: bool, budget: usize) -> (r: Resolved<
        'a,
    >)
        ensures
            r@ == self.chain_resolution(id@, transport, budget),
            r matches Resolved::Trigger { chain, .. } ==> chain < self.chains.len(),
    {
        let index = match find_chain(&self.chains, id) {
            Some(index) => index,
            None => {
                return Resolved::Failed(TemplateError::ChainUnknown { chain_id: id });
            },
        };
        let chain = &self.chains[index];
        let last = self.history.get_last_success(chain.source.as_str(), &self.profile_id);
        let age = match last {
            Some((_, time)) => Some(
                if self.now >= time {
                    self.now - time
                } else {
                    0
                },
            ),
            None => None,
        };
        match chain.trigger.plan(age, transport, budget) {
            Err(PlanError::TriggerDisabled) => Resolved::Failed(
                TemplateError::TriggerDisabled { chain_id: id },
            ),
            Err(PlanError::RecursionLimitExceeded) => Resolved::Failed(
                TemplateError::RecursionLimitExceeded { chain_id: id },
            ),
            Ok(ChainPlan::Trigger { budget }) => Resolved::Trigger { chain: index, budget },
            Ok(ChainPlan::Read) => match last {
                None => Resolved::Failed(TemplateError::ChainNoResponse { chain_id: id }),
                Some((response, _)) => match value_in_body(chain, id, &response.body) {
                    Ok(value) => Resolved::Value(value),
                    Err(e) => Resolved::Failed(e),
                },
            },
        }
    }

    /// Resolves a key.
    pub fn resolve<'a>(&'a self, key: TemplateKey<'a>, transport: bool, budget: usize) -> (r:
        Resolved<'a>)
        ensures
            r@ == self.key_resolution(key@, transport, budget),
            r matches Resolved::Trigger { chain, .. } ==> chain < self.chains.len(),
    {
        match key {
            TemplateKey::Field(name) => match resolve_field(name, &self.overrides, &self.profile) {
                Some(value) => Resolved::Value(value.clone()),
                None => Resolved::Failed(TemplateError::FieldUnknown { field: name }),
            },
            TemplateKey::Chain(id) => self.resolve_chain(id, transport, budget),
        }
    }

    /// The value of a key where nothing is sent: a chain that would send a
    /// request fails with `TriggerDisabled`.
    pub fn get<'a>(&'a self, key: TemplateKey<'a>) -> (r: Result<String, TemplateError<&'a str>>)
        ensures
            match r {
                Ok(value) => self.key_resolution(key@, false, self.recursion_budget)
                    == Resolution::Value(value@),
                Err(e) => self.key_resolution(key@, false, self.recursion_budget)
                    == Resolution::Failed(e@),
            },
    {
        match self.resolve(key, false, self.recursion_budget) {
            Resolved::Value(value) => Ok(value),
            Resolved::Failed(e) => Err(e),
            Resolved::Trigger { .. } => unreached(),
        }
    }
}

/// Without a transport no rendering is suspended.
pub proof fn lemma_progress_without_transport(
    context: &TemplateContext,
    pieces: Seq<Piece>,
    from: int,
    output: Seq<char>,
    budget: usize,
)
    ensures
        !(context.progress(pieces, from, output, false, budget) is Suspended),
    decreases pieces.len() - from,
{
    if 0 <= from < pieces.len() {
        match pieces[from] {
            Piece::Literal(text) => {
                lemma_progress_without_transport(context, pieces, from + 1, output + text, budget);
            },
            Piece::Key(raw) => match context.resolution(raw, false, budget) {
                Resolution::Value(value) => {
                    lemma_progress_without_transport(
                        context,
                        pieces,
                        from + 1,
                        output + value,
                        budget,
                    );
                },
                _ => {},
            },
        }
    }
}

impl TemplateString {
    /// What the template renders to where nothing is sent: the text with
    /// each placeholder replaced by the value of its key, or the error of the
    /// first key, from the left, that has no value.
    pub open spec fn rendered(&self, context: &TemplateContext) -> Result<
        Seq<char>,
        TemplateError<Seq<char>, Seq<char>>,
    > {
        match context.progress(
            pieces(self@, 0),
            0,
            Seq::empty(),
            false,
            context.recursion_budget,
        ) {
            Progress::Finished(text) => Ok(text),
            Progress::Failed(error) => Err(error),
            Progress::Suspended { chain, .. } => Err(
                TemplateError::TriggerDisabled { chain_id: context.chains@[chain].id@ },
            ),
        }
    }

    /// Renders the template from piece number `from` on, behind `output`.
    pub fn render_from<'a>(
        &'a self,
        context: &'a TemplateContext,
        from: usize,
        output: String,
        transport: bool,
        budget: usize,
    ) -> (r: Rendering<'a>)
        ensures
            r@ == context.progress(pieces(self@, 0), from as int, output@, transport, budget),
            r matches Rendering::Suspended { chain, segment, .. } ==> (chain < context.chains.len()
                && from <= segment < pieces(self@, 0).len() && segment < usize::MAX),
    {
        let chars = chars_of(self.0.as_str());
        let segments = split_template(&chars);
        let ghost all = pieces(self@, 0);
        let mut text = output;
        let mut i: usize = from;
        while i < segments.len()
            invariant
                from <= i,
                chars@ == self@,
                all == pieces(self@, 0),
                segment_pieces(segments@, chars@) == all,
                segments@.len() == all.len(),
                forall|j: int|
                    0 <= j < segments.len() ==> 0 <= (#[trigger] segments[j]).start()
                        <= segments[j].end() <= chars.len(),
                context.progress(all, i as int, text@, transport, budget) == context.progress(
                    all,
                    from as int,
                    output@,
                    transport,
                    budget,
                ),
            decreases segments.len() - i,
        {
            match segments[i] {
                Segment::Literal { start, end } => {
                    append_chars(&mut text, &chars, start, end);
                },
                Segment::Key { start, end } => {
                    let raw = self.0.as_str().substring_char(start, end);
                    let key = match TemplateKey::parse(raw) {
                        Ok(key) => key,
                        Err(e) => {
                            return Rendering::Failed(e);
                        },
                    };
                    match context.resolve(key, transport, budget) {
                        Resolved::Value(value) => {
                            text.append(value.as_str());
                        },
                        Resolved::Failed(e) => {
                            return Rendering::Failed(e);
                        },
                        Resolved::Trigger { chain, budget } => {
                            return Rendering::Suspended { segment: i, output: text, chain, budget };
                        },
                    }
                },
            }
            i += 1;
        }
        Rendering::Finished(text)
    }

    /// Renders the template where nothing is sent. An error borrows the text
    /// it points at from the template and the context.
    pub fn render_borrow<'a>(&'a self, context: &'a TemplateContext) -> (r: Result<
        String,
        TemplateError<&'a str>,
    >)
        ensures
            match r {
                Ok(text) => self.rendered(context) == Ok::<Seq<char>, TemplateError<Seq<char>, Seq<char>>>(
                    text@,
                ),
                Err(e) => self.rendered(context) == Err::<Seq<char>, TemplateError<Seq<char>, Seq<char>>>(e@),
            },
            next_placeholder(self@, 0) is None ==> (r matches Ok(text) && text@ == self@),
    {
        proof {
            lemma_progress_without_transport(
                context,
                pieces(self@, 0),
                0,
                Seq::empty(),
                context.recursion_budget,
            );
            if next_placeholder(self@, 0) is None {
                lemma_render_plain_text(self@, context);
            }
        }
        match self.render_from(context, 0, String::new(), false, context.recursion_budget) {
            Rendering::Finished(text) => Ok(text),
            Rendering::Failed(e) => Err(e),
            Rendering::Suspended { .. } => unreached(),
        }
    }

    /// Renders the template where nothing is sent. An error comes with a copy
    /// of the template and of the text it points at.
    pub fn render(&self, context: &TemplateContext) -> (r: Result<String, RenderError>)
        ensures
            match r {
                Ok(text) => self.rendered(context) == Ok::<Seq<char>, TemplateError<Seq<char>, Seq<char>>>(
                    text@,
                ),
                Err(e) => self.rendered(context) == Err::<Seq<char>, TemplateError<Seq<char>, Seq<char>>>(
                    e@.error,
                ) && e@.template == self@,
            },
            next_placeholder(self@, 0) is None ==> (r matches Ok(text) && text@ == self@),
    {
        match self.render_borrow(context) {
            Ok(text) => Ok(text),
            Err(e) => Err(RenderError { template: self.0.clone(), error: e.into_owned() }),
        }
    }
}

/// A template without a placeholder renders to itself, whatever the context.
pub proof fn lemma_render_plain_text(template: Seq<char>, context: &TemplateContext)
    requires
        next_placeholder(template, 0) is None,
    ensures
        forall|transport: bool, budget: usize|
            context.progress(pieces(template, 0), 0, Seq::empty(), transport, budget)
                == Progress::Finished(template),
{
    lemma_pieces_of_plain_text(template);
    let all = pieces(template, 0);
    assert forall|transport: bool, budget: usize|
        context.progress(all, 0, Seq::empty(), transport, budget) == Progress::Finished(
            template,
        ) by {
        assert(context.progress(all, 1, template, transport, budget) == Progress::Finished(
            template,
        ));
    }
}

/// A chain without a path takes the whole body as its value, as it is. A
/// chain with a path fails with the error that belongs to what went wrong:
/// `ChainJsonPath` for a text that is no path, `ChainJsonResponse` for a body
/// that is no JSON, `ChainInvalidResult` for a path that selects no node or
/// more than one.
pub proof fn lemma_chain_value(path: Option<Seq<char>>, id: Seq<char>, body: Seq<char>)
    ensures
        path is None ==> chain_value(path, id, body) == Ok::<
            Seq<char>,
            TemplateError<Seq<char>, Seq<char>>,
        >(body),
        path matches Some(p) ==> match extracted(p, body) {
            Ok(value) => chain_value(path, id, body) == Ok::<
                Seq<char>,
                TemplateError<Seq<char>, Seq<char>>,
            >(value),
            Err(ExtractFailure::Path(reason)) => chain_value(path, id, body) == Err::<
                Seq<char>,
                TemplateError<Seq<char>, Seq<char>>,
            >(TemplateError::ChainJsonPath { chain_id: id, path: p, reason }),
            Err(ExtractFailure::Document(reason)) => chain_value(path, id, body) == Err::<
                Seq<char>,
                TemplateError<Seq<char>, Seq<char>>,
            >(TemplateError::ChainJsonResponse { chain_id: id, reason }),
            Err(ExtractFailure::Count(matches)) => chain_value(path, id, body) == Err::<
                Seq<char>,
                TemplateError<Seq<char>, Seq<char>>,
            >(TemplateError::ChainInvalidResult { chain_id: id, matches }),
        },
{
}

/// An id that no chain has resolves to `ChainUnknown`, whatever else the
/// context holds.
pub proof fn lemma_unknown_chain(
    context: &TemplateContext,
    id: Seq<char>,
    transport: bool,
    budget: usize,
)
    requires
        chain_index(context.chains@, id) is None,
    ensures
        context.chain_resolution(id, transport, budget) == Resolution::Failed(
            TemplateError::ChainUnknown { chain_id: id },
        ),
{
}

/// A chain that reads history, and whose recipe has no successful response
/// there under the profile in use, resolves to `ChainNoResponse`.
pub proof fn lemma_chain_without_response(
    context: &TemplateContext,
    id: Seq<char>,
    transport: bool,
    budget: usize,
)
    requires
        chain_index(context.chains@, id) matches Some(i) && context.chains@[i].trigger
            == crate::chain::TriggerPolicy::UseLastSuccess && context.last_success(
            context.chains@[i].source@,
        ) is None,
    ensures
        context.chain_resolution(id, transport, budget) == Resolution::Failed(
            TemplateError::ChainNoResponse { chain_id: id },
        ),
{
}

/// A chain that reads history takes its value out of the body of the last
/// successful response to its recipe.
pub proof fn lemma_chain_reads_last_success(
    context: &TemplateContext,
    id: Seq<char>,
    transport: bool,
    budget: usize,
)
    requires
        chain_index(context.chains@, id) matches Some(i) && context.chains@[i].trigger
            == crate::chain::TriggerPolicy::UseLastSuccess && context.last_success_body(
            context.chains@[i].source@,
        ) is Some,
    ensures
        ({
            let chain = context.chains@[chain_index(context.chains@, id)->0];
            let body = context.last_success_body(chain.source@)->0;
            match chain_value(text_of(chain.path), id, body) {
                Ok(value) => context.chain_resolution(id, transport, budget) == Resolution::Value(
                    value,
                ),
                Err(error) => context.chain_resolution(id, transport, budget)
                    == Resolution::Failed(error),
            }
        }),
{
}

/// A chain whose policy asks for a request resolves, without a transport, to
/// `TriggerDisabled`, whatever history holds and whatever the budget: not to
/// `ChainNoResponse`. With a transport and a budget that is used up it
/// resolves to `RecursionLimitExceeded`; with a budget left it sends, with a
/// smaller one.
pub proof fn lemma_chain_that_sends(
    context: &TemplateContext,
    id: Seq<char>,
    transport: bool,
    budget: usize,
)
    requires
        chain_index(context.chains@, id) matches Some(i) && crate::chain::demands_trigger(
            context.chains@[i].trigger,
            context.last_success_age(context.chains@[i].source@),
        ),
    ensures
        !transport ==> context.chain_resolution(id, transport, budget) == Resolution::Failed(
            TemplateError::TriggerDisabled { chain_id: id },
        ),
        transport && budget == 0 ==> context.chain_resolution(id, transport, budget)
            == Resolution::Failed(TemplateError::RecursionLimitExceeded { chain_id: id }),
        transport && budget > 0 ==> context.chain_resolution(id, transport, budget)
            == (Resolution::Trigger {
            chain: chain_index(context.chains@, id)->0,
            budget: (budget - 1) as usize,
        }),
{
}

} // verus!
