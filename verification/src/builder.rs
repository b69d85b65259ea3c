//! Building a recipe's request, with the requests that its chains send on
//! the way. A build is a stack of frames, one for each recipe that is being
//! rendered; it stops where a request has to be sent and goes on with what
//! came back.

use crate::chain::lemma_trigger_spends_budget;
use crate::error::TemplateError;
use crate::history::{outcome_of, Outcome, Record};
use crate::key::KeyKind;
use crate::lexer::{pieces, Piece};
use crate::request::{find_recipe, recipe_index, texts, Recipe, Request, RequestText, Response};
use crate::template::{
    chain_value, value_in_body, FailureText, Progress, RenderError, Rendering, Resolution,
    TemplateContext, TemplateString,
};
use crate::text::text_of;
use vstd::pervasive::unreached;
use vstd::prelude::*;

verus! {

/// The state of one recipe's rendering.
#[derive(Debug)]
pub struct Frame {
    /// The number of the recipe.
    pub recipe: usize,
    /// How deep the requests that its chains send may nest.
    pub budget: usize,
    /// The number of the chain that this recipe's request is sent for; it
    /// means nothing for the recipe that the caller asked for.
    pub chain: usize,
    /// The piece at which the current template goes on.
    pub segment: usize,
    /// What the pieces before it rendered to.
    pub output: String,
    /// What the templates before the current one rendered to.
    pub done: Vec<String>,
}

/// A frame as text.
pub struct FrameText {
    pub recipe: int,
    pub budget: usize,
    pub chain: int,
    pub segment: int,
    pub output: Seq<char>,
    pub done: Seq<Seq<char>>,
}

impl View for Frame {
    type V = FrameText;

    open spec fn view(&self) -> FrameText {
        FrameText {
            recipe: self.recipe as int,
            budget: self.budget,
            chain: self.chain as int,
            segment: self.segment as int,
            output: self.output@,
            done: texts(self.done@),
        }
    }
}

/// A stack of frames as text.
pub open spec fn frame_texts(frames: Seq<Frame>) -> Seq<FrameText> {
    frames.map_values(|f: Frame| f@)
}

/// What a build does next.
pub enum Move {
    /// It goes on with this stack.
    Advance(Seq<FrameText>),
    /// The request of a chain's recipe, on top of this stack, is complete: it
    /// is to be sent, and the build waits for the response.
    Send(Seq<FrameText>, RequestText),
    /// The request that the caller asked for is complete.
    Done(RequestText),
    /// A template failed to render, and the build with it.
    Failed(FailureText),
}

/// The frame that a recipe's rendering starts with.
pub open spec fn first_frame(recipe: int, budget: usize, chain: int) -> FrameText {
    FrameText { recipe, budget, chain, segment: 0, output: Seq::empty(), done: Seq::empty() }
}

impl TemplateContext {
    /// Whether a stack of frames can stand in this context: the recipes and
    /// chains it names exist, no frame holds more rendered templates than
    /// its recipe has, each frame below the top one is in the middle of a
    /// template, and each nested frame has a smaller budget than the one
    /// below it.
    pub open spec fn stack_ok(&self, frames: Seq<FrameText>) -> bool {
        &&& frames.len() > 0
        &&& forall|i: int|
            0 <= i < frames.len() ==> {
                &&& 0 <= (#[trigger] frames[i]).recipe < self.recipes@.len()
                &&& frames[i].done.len() <= self.recipes@[frames[i].recipe].template_count()
                &&& 0 <= frames[i].segment
            }
        &&& forall|i: int|
            1 <= i < frames.len() ==> {
                &&& 0 <= (#[trigger] frames[i]).chain < self.chains@.len()
                &&& frames[i].budget < frames[i - 1].budget
                &&& frames[i - 1].done.len() < self.recipes@[frames[i - 1].recipe].template_count()
            }
    }

    /// The templates that the top frame has yet to render.
    pub open spec fn templates_left(&self, frames: Seq<FrameText>) -> int {
        self.recipes@[frames.last().recipe].template_count() - frames.last().done.len()
    }

    /// Whether `next` is nearer to the end than `frames`: its top frame has
    /// a smaller budget, or the same and fewer templates left.
    pub open spec fn nearer(&self, next: Seq<FrameText>, frames: Seq<FrameText>) -> bool {
        ||| next.last().budget < frames.last().budget
        ||| (next.last().budget == frames.last().budget && 0 <= self.templates_left(next)
            < self.templates_left(frames))
    }

    /// One move of a build. The top frame's recipe is rendered template by
    /// template. With all of them rendered the request is complete: it is
    /// the result where the frame is the only one, and is sent where the
    /// frame stands for a chain. Else the current template is rendered as far
    /// as it goes: to its end, and the next template follows; to an error,
    /// which ends the build; or to a chain that sends a request, whose recipe
    /// is then rendered in a frame of its own, on top, with the chain's
    /// budget. A chain whose recipe does not exist has no response.
    pub open spec fn next_move(&self, frames: Seq<FrameText>) -> Move {
        let top = frames.last();
        let recipe = self.recipes@[top.recipe];
        match recipe.template_at(top.done.len() as int) {
            None => {
                let request = recipe.assembled(text_of(self.profile_id), top.done);
                if frames.len() == 1 {
                    Move::Done(request)
                } else {
                    Move::Send(frames, request)
                }
            },
            Some(template) => match self.progress(
                pieces(template, 0),
                top.segment,
                top.output,
                self.transport,
                top.budget,
            ) {
                Progress::Finished(text) => Move::Advance(
                    frames.drop_last().push(
                        FrameText {
                            segment: 0,
                            output: Seq::empty(),
                            done: top.done.push(text),
                            ..top
                        },
                    ),
                ),
                Progress::Failed(error) => Move::Failed(FailureText { template, error }),
                Progress::Suspended { segment, output, chain, budget } => match recipe_index(
                    self.recipes@,
                    self.chains@[chain].source@,
                ) {
                    None => Move::Failed(
                        FailureText {
                            template,
                            error: TemplateError::ChainNoResponse {
                                chain_id: self.chains@[chain].id@,
                            },
                        },
                    ),
                    Some(source) => Move::Advance(
                        frames.drop_last().push(FrameText { segment: segment + 1, output, ..top })
                            .push(first_frame(source, budget, chain)),
                    ),
                },
            },
        }
    }

    /// Where a build arrives from `frames`: the first move that is no
    /// `Advance`. (A move that goes on leaves a stack that is nearer to the
    /// end, as `lemma_advance` shows, so the test on that never fails: it is
    /// there to show that the definition comes to an end.)
    pub open spec fn driven(&self, frames: Seq<FrameText>) -> Move
        decreases frames.last().budget, self.templates_left(frames),
    {
        match self.next_move(frames) {
            Move::Advance(next) => {
                if self.nearer(next, frames) {
                    self.driven(next)
                } else {
                    Move::Advance(next)
                }
            },
            other => other,
        }
    }

    /// What a build does with the response to the request that its top frame
    /// completed for a chain: the frame is done with; a failure leaves the
    /// chain without response; a response gives the chain's value, which
    /// stands for the chain's key in the frame below, where the build goes
    /// on.
    pub open spec fn received(&self, frames: Seq<FrameText>, result: Result<Response, String>)
        -> Move {
        let chain = self.chains@[frames.last().chain];
        let below = frames[frames.len() - 2];
        let template = self.recipes@[below.recipe].template_at(below.done.len() as int)->0;
        match result {
            Err(_) => Move::Failed(
                FailureText {
                    template,
                    error: TemplateError::ChainNoResponse { chain_id: chain.id@ },
                },
            ),
            Ok(response) => match chain_value(text_of(chain.path), chain.id@, response.body@) {
                Err(error) => Move::Failed(FailureText { template, error }),
                Ok(value) => Move::Advance(resumed_stack(frames, value)),
            },
        }
    }
}

/// The stack without its top frame, and with `value` behind the output of
/// the frame below it.
pub open spec fn resumed_stack(frames: Seq<FrameText>, value: Seq<char>) -> Seq<FrameText> {
    let below = frames[frames.len() - 2];
    frames.drop_last().drop_last().push(FrameText { output: below.output + value, ..below })
}

/// A stack that a value is handed down in can stand where it stood before.
pub proof fn lemma_resumed_stack(
    context: &TemplateContext,
    frames: Seq<FrameText>,
    value: Seq<char>,
)
    requires
        context.stack_ok(frames),
        frames.len() >= 2,
    ensures
        context.stack_ok(resumed_stack(frames, value)),
{
    let next = resumed_stack(frames, value);
}

/// A rendering is suspended at a piece that is there, for a chain that
/// exists, and with a smaller budget than it has itself.
pub proof fn lemma_suspended(
    context: &TemplateContext,
    pieces: Seq<Piece>,
    from: int,
    output: Seq<char>,
    transport: bool,
    budget: usize,
)
    requires
        0 <= from,
    ensures
        context.progress(pieces, from, output, transport, budget) matches Progress::Suspended {
            segment,
            chain,
            budget: nested,
            ..
        } ==> {
            &&& from <= segment < pieces.len()
            &&& 0 <= chain < context.chains@.len()
            &&& nested < budget
            &&& transport
        },
    decreases pieces.len() - from,
{
    if from < pieces.len() {
        match pieces[from] {
            Piece::Literal(text) => {
                lemma_suspended(context, pieces, from + 1, output + text, transport, budget);
            },
            Piece::Key(raw) => match context.resolution(raw, transport, budget) {
                Resolution::Value(value) => {
                    lemma_suspended(context, pieces, from + 1, output + value, transport, budget);
                },
                Resolution::Failed(_) => {},
                Resolution::Trigger { chain, budget: nested } => {
                    let id = crate::key::parsed_key(raw)->0->Chain_0;
                    crate::text::lemma_position(crate::chain::chain_ids(context.chains@), id);
                    let found = context.chains@[chain];
                    lemma_trigger_spends_budget(
                        found.trigger,
                        context.last_success_age(found.source@),
                        transport,
                        budget,
                    );
                },
            },
        }
    }
}

/// A move that goes on leaves a stack that can stand in the context and is
/// nearer to the end; no build goes on without end, and each frame that a
/// chain adds has a smaller budget than the frame below it.
pub proof fn lemma_advance(context: &TemplateContext, frames: Seq<FrameText>)
    requires
        context.stack_ok(frames),
    ensures
        context.next_move(frames) matches Move::Advance(next) ==> context.stack_ok(next)
            && context.nearer(next, frames),
        context.next_move(frames) matches Move::Send(stack, _) ==> stack == frames && frames.len()
            >= 2,
{
    let top = frames.last();
    let recipe = context.recipes@[top.recipe];
    match recipe.template_at(top.done.len() as int) {
        None => {},
        Some(template) => {
            lemma_suspended(
                context,
                pieces(template, 0),
                top.segment,
                top.output,
                context.transport,
                top.budget,
            );
            match context.progress(
                pieces(template, 0),
                top.segment,
                top.output,
                context.transport,
                top.budget,
            ) {
                Progress::Suspended { segment, output, chain, budget } => {
                    crate::text::lemma_position(
                        crate::request::recipe_ids(context.recipes@),
                        context.chains@[chain].source@,
                    );
                },
                _ => {},
            }
        },
    }
}

/// Every build comes to an end: from a stack that can stand in the context
/// it arrives at a complete request, at a failure, or at a request to send,
/// and then with a stack that can stand in the context and holds the frame
/// of a chain on top.
pub proof fn lemma_build_ends(context: &TemplateContext, frames: Seq<FrameText>)
    requires
        context.stack_ok(frames),
    ensures
        !(context.driven(frames) is Advance),
        context.driven(frames) matches Move::Send(stack, _) ==> context.stack_ok(stack)
            && stack.len() >= 2,
    decreases frames.last().budget, context.templates_left(frames),
{
    lemma_advance(context, frames);
    match context.next_move(frames) {
        Move::Advance(next) => {
            lemma_build_ends(context, next);
        },
        _ => {},
    }
}

/// Without a transport nothing is sent: the build of a recipe ends with its
/// request or with a failure, and never asks for a request to be sent.
pub proof fn lemma_nothing_sent_without_transport(
    context: &TemplateContext,
    frames: Seq<FrameText>,
)
    requires
        context.stack_ok(frames),
        frames.len() == 1,
        !context.transport,
    ensures
        context.driven(frames) is Done || context.driven(frames) is Failed,
    decreases frames.last().budget, context.templates_left(frames),
{
    lemma_advance(context, frames);
    let top = frames.last();
    match context.recipes@[top.recipe].template_at(top.done.len() as int) {
        Some(template) => {
            lemma_suspended(
                context,
                pieces(template, 0),
                top.segment,
                top.output,
                context.transport,
                top.budget,
            );
        },
        None => {},
    }
    match context.next_move(frames) {
        Move::Advance(next) => {
            lemma_nothing_sent_without_transport(context, next);
        },
        _ => {},
    }
}

impl TemplateContext {
    /// Whether the request of `recipe` has to send that of `source` first:
    /// the first placeholder in the URL of `recipe` is the key of `chain`,
    /// a chain that sends every time and whose recipe is `source`.
    pub open spec fn sends_first(&self, recipe: int, chain: int, source: int) -> bool {
        let all = pieces(self.recipes@[recipe].url@, 0);
        &&& 0 <= recipe < self.recipes@.len()
        &&& 0 <= chain < self.chains@.len()
        &&& all.len() >= 2
        &&& all[1] matches Piece::Key(raw)
        &&& crate::key::parsed_key(raw) == Some(KeyKind::Chain(self.chains@[chain].id@))
        &&& crate::chain::chain_index(self.chains@, self.chains@[chain].id@) == Some(chain)
        &&& self.chains@[chain].trigger == crate::chain::TriggerPolicy::AlwaysTrigger
        &&& recipe_index(self.recipes@, self.chains@[chain].source@) == Some(source)
    }
}

/// Two recipes that send for each other come to an end. Where the request of
/// one recipe has to send that of the other first, and that of the other the
/// first one's, a build that starts on one of them with a transport does not
/// go round for ever: each request is built in a frame of its own with a
/// budget one less than that of the frame below, and the frame whose budget
/// is used up fails with `RecursionLimitExceeded`, which ends the build.
/// Nothing is sent on the way.
pub proof fn lemma_cycle_hits_the_limit(
    context: &TemplateContext,
    frames: Seq<FrameText>,
    a: int,
    chain_a: int,
    b: int,
    chain_b: int,
)
    requires
        context.transport,
        context.sends_first(a, chain_a, b),
        context.sends_first(b, chain_b, a),
        context.stack_ok(frames),
        frames.last().recipe == a,
        frames.last().segment == 0,
        frames.last().output == Seq::<char>::empty(),
        frames.last().done == Seq::<Seq<char>>::empty(),
    ensures
        context.driven(frames) matches Move::Failed(failure) && (failure.error
            == TemplateError::<Seq<char>, Seq<char>>::RecursionLimitExceeded {
            chain_id: context.chains@[chain_a].id@,
        } || failure.error == TemplateError::<Seq<char>, Seq<char>>::RecursionLimitExceeded {
            chain_id: context.chains@[chain_b].id@,
        }),
    decreases frames.last().budget,
{
    let top = frames.last();
    let url = context.recipes@[a].url@;
    let all = pieces(url, 0);
    let id = context.chains@[chain_a].id@;
    crate::lexer::lemma_pieces_unfold(url, 0);
    assert(all[0] is Literal);
    let text = all[0]->Literal_0;
    let raw = all[1]->Key_0;
    assert(context.recipes@[a].template_at(0) == Some(url));
    assert(context.resolution(raw, true, top.budget) == context.chain_resolution(
        id,
        true,
        top.budget,
    ));
    if top.budget == 0 {
        let error = TemplateError::<Seq<char>, Seq<char>>::RecursionLimitExceeded { chain_id: id };
        assert(context.chain_resolution(id, true, top.budget) == Resolution::Failed(error));
        assert(context.progress(all, 1, top.output + text, true, top.budget) == Progress::Failed(
            error,
        ));
        assert(context.progress(all, 0, top.output, true, top.budget) == Progress::Failed(error));
    } else {
        let nested = (top.budget - 1) as usize;
        assert(context.chain_resolution(id, true, top.budget) == Resolution::Trigger {
            chain: chain_a,
            budget: nested,
        });
        assert(context.progress(all, 1, top.output + text, true, top.budget)
            == Progress::Suspended {
            segment: 1,
            output: top.output + text,
            chain: chain_a,
            budget: nested,
        });
        assert(context.progress(all, 0, top.output, true, top.budget) == Progress::Suspended {
            segment: 1,
            output: top.output + text,
            chain: chain_a,
            budget: nested,
        });
        let next = frames.drop_last().push(
            FrameText { segment: 2, output: top.output + text, ..top },
        ).push(first_frame(b, nested, chain_a));
        assert(context.next_move(frames) == Move::Advance(next));
        lemma_advance(context, frames);
        lemma_cycle_hits_the_limit(context, next, b, chain_b, a, chain_a);
    }
}

/// In a stack that can stand in a context, budgets shrink from the bottom
/// up: with the bottom frame's budget `b` there are at most `b + 1` frames.
pub proof fn lemma_depth_is_bounded(context: &TemplateContext, frames: Seq<FrameText>)
    requires
        context.stack_ok(frames),
    ensures
        frames.len() <= frames[0].budget + 1,
        forall|i: int| 0 <= i < frames.len() ==> (#[trigger] frames[i]).budget + i <= frames[0].budget,
    decreases frames.len(),
{
    if frames.len() > 1 {
        let below = frames.drop_last();
        lemma_depth_is_bounded(context, below);
        let last = frames.len() - 1;
        assert(below[last - 1] == frames[last - 1]);
        assert(frames[last].budget < frames[last - 1].budget);
        assert forall|i: int| 0 <= i < frames.len() implies (#[trigger] frames[i]).budget + i
            <= frames[0].budget by {
            if i < last {
                assert(below[i] == frames[i]);
            }
        }
    }
}

/// A build that waits for the response to a request that it had sent.
#[derive(Debug)]
pub struct RequestBuilder {
    below: Vec<Frame>,
    top: Frame,
    record: usize,
}

/// How far a build came.
#[derive(Debug)]
pub enum BuildStep {
    /// The request is complete.
    Done(Request),
    /// A template failed to render, and the build with it.
    Failed(RenderError),
    /// History record `record` holds a request to send. The build goes on
    /// when `builder` receives what came back.
    Send { record: usize, builder: RequestBuilder },
}

/// Whether two contexts differ in their history at most.
pub open spec fn same_setting(a: TemplateContext, b: TemplateContext) -> bool {
    &&& a.profile_id == b.profile_id
    &&& a.profile == b.profile
    &&& a.overrides == b.overrides
    &&& a.chains == b.chains
    &&& a.recipes == b.recipes
    &&& a.transport == b.transport
    &&& a.recursion_budget == b.recursion_budget
    &&& a.now == b.now
}

impl RequestBuilder {
    /// The frames of the build, the top one last.
    pub closed spec fn frames(&self) -> Seq<FrameText> {
        frame_texts(self.below@).push(self.top@)
    }

    /// The id of the record whose outcome the build waits for.
    pub closed spec fn record(&self) -> int {
        self.record as int
    }

    /// Whether the build can go on in this context: its frames can stand in
    /// it, the top one is there for a chain, and the record that it waits
    /// for is pending.
    pub open spec fn waits_in(&self, context: TemplateContext) -> bool {
        &&& context.stack_ok(self.frames())
        &&& self.frames().len() >= 2
        &&& 0 <= self.record() < context.history.records().len()
        &&& context.history.records()[self.record()].outcome is Pending
    }
}

/// Whether `step` is what a build hands out when it arrives at `arrived`,
/// having started with the context `before` and left it as `after`. A build
/// that ends leaves the context as it is. One that sends a request adds the
/// request to history, with its outcome pending, and changes nothing else.
pub open spec fn step_is(
    step: BuildStep,
    arrived: Move,
    before: TemplateContext,
    after: TemplateContext,
) -> bool {
    match step {
        BuildStep::Done(request) => arrived == Move::Done(request@) && after == before,
        BuildStep::Failed(failure) => arrived == Move::Failed(failure@) && after == before,
        BuildStep::Send { record, builder } => {
            &&& arrived matches Move::Send(frames, request)
            &&& builder.frames() == frames
            &&& builder.record() == record
            &&& builder.waits_in(after)
            &&& same_setting(after, before)
            &&& record == before.history.records().len()
            &&& after.history.records().len() == record + 1
            &&& after.history.records().drop_last() == before.history.records()
            &&& after.history.records().last().request@ == request
            &&& after.history.records().last().outcome is Pending
        },
    }
}

/// Where a build arrives after a move.
pub open spec fn arrival(context: TemplateContext, first: Move) -> Move {
    match first {
        Move::Advance(next) => context.driven(next),
        other => other,
    }
}

/// A build after one move.
enum Moved {
    /// It goes on with this stack, all but the top frame and the top frame.
    On(Vec<Frame>, Frame),
    End(BuildStep),
}

/// Makes one move of a build.
fn make_move(context: &mut TemplateContext, below: Vec<Frame>, top: Frame) -> (moved: Moved)
    requires
        old(context).stack_ok(frame_texts(below@).push(top@)),
    ensures
        match moved {
            Moved::On(stack, next) => {
                &&& *final(context) == *old(context)
                &&& old(context).next_move(frame_texts(below@).push(top@)) == Move::Advance(
                    frame_texts(stack@).push(next@),
                )
            },
            Moved::End(step) => {
                &&& !(old(context).next_move(frame_texts(below@).push(top@)) is Advance)
                &&& step_is(
                    step,
                    old(context).next_move(frame_texts(below@).push(top@)),
                    *old(context),
                    *final(context),
                )
            },
        },
{
    let ghost frames = frame_texts(below@).push(top@);
    proof {
        lemma_advance(&*context, frames);
        assert(frames.drop_last() =~= frame_texts(below@));
    }
    let Frame { recipe, budget, chain, segment, output, done } = top;
    let template = match context.recipes[recipe].template(done.len()) {
        Some(template) => template,
        None => {
            let request = context.recipes[recipe].assemble(&context.profile_id, &done);
            if below.len() == 0 {
                return Moved::End(BuildStep::Done(request));
            }
            let ghost before = context.history.records();
            let record = context.history.add(request);
            let top = Frame { recipe, budget, chain, segment, output, done };
            assert(context.history.records().drop_last() =~= before);
            return Moved::End(
                BuildStep::Send { record, builder: RequestBuilder { below, top, record } },
            );
        },
    };
    match template.render_from(&*context, segment, output, context.transport, budget) {
        Rendering::Finished(text) => {
            let mut done = done;
            proof {
                assert(texts(done@.push(text)) =~= texts(done@).push(text@));
            }
            done.push(text);
            Moved::On(
                below,
                Frame { recipe, budget, chain, segment: 0, output: String::new(), done },
            )
        },
        Rendering::Failed(error) => Moved::End(
            BuildStep::Failed(
                RenderError { template: template.0.clone(), error: error.into_owned() },
            ),
        ),
        Rendering::Suspended { segment: at, output: so_far, chain: asked, budget: nested } => {
            let source = match find_recipe(&context.recipes, context.chains[asked].source.as_str()) {
                Some(source) => source,
                None => {
                    return Moved::End(
                        BuildStep::Failed(
                            RenderError {
                                template: template.0.clone(),
                                error: TemplateError::ChainNoResponse {
                                    chain_id: context.chains[asked].id.clone(),
                                },
                            },
                        ),
                    );
                },
            };
            let mut stack = below;
            let parent = Frame { recipe, budget, chain, segment: at + 1, output: so_far, done };
            proof {
                assert(frame_texts(stack@.push(parent)) =~= frame_texts(below@).push(parent@));
                assert(texts(Seq::<String>::empty()) =~= Seq::<Seq<char>>::empty());
            }
            stack.push(parent);
            Moved::On(
                stack,
                Frame {
                    recipe: source,
                    budget: nested,
                    chain: asked,
                    segment: 0,
                    output: String::new(),
                    done: Vec::new(),
                },
            )
        },
    }
}

/// Moves a build on until its request is complete, it fails, or it has a
/// request to send.
fn drive(context: &mut TemplateContext, below: Vec<Frame>, top: Frame) -> (step: BuildStep)
    requires
        old(context).stack_ok(frame_texts(below@).push(top@)),
    ensures
        step_is(
            step,
            old(context).driven(frame_texts(below@).push(top@)),
            *old(context),
            *final(context),
        ),
{
    let mut stack = below;
    let mut current = top;
    loop
        invariant
            *context == *old(context),
            context.stack_ok(frame_texts(stack@).push(current@)),
            context.driven(frame_texts(stack@).push(current@)) == context.driven(
                frame_texts(below@).push(top@),
            ),
        decreases
                current.budget,
                context.recipes@[current.recipe as int].template_count() - current.done.len(),
    {
        let ghost frames = frame_texts(stack@).push(current@);
        proof {
            lemma_advance(&*context, frames);
        }
        match make_move(context, stack, current) {
            Moved::On(rest, next) => {
                stack = rest;
                current = next;
            },
            Moved::End(step) => {
                return step;
            },
        }
    }
}

impl RequestBuilder {
    /// Starts to build the request of the recipe with this id, with the
    /// context's budget. `None` where no recipe has the id.
    pub fn start(context: &mut TemplateContext, recipe_id: &str) -> (step: Option<BuildStep>)
        ensures
            match step {
                None => recipe_index(old(context).recipes@, recipe_id@) is None && *final(context)
                    == *old(context),
                Some(step) => {
                    &&& recipe_index(old(context).recipes@, recipe_id@) matches Some(recipe)
                    &&& step_is(
                        step,
                        old(context).driven(
                            seq![first_frame(recipe, old(context).recursion_budget, 0)],
                        ),
                        *old(context),
                        *final(context),
                    )
                },
            },
    {
        let recipe = match find_recipe(&context.recipes, recipe_id) {
            Some(recipe) => recipe,
            None => {
                return None;
            },
        };
        let top = Frame {
            recipe,
            budget: context.recursion_budget,
            chain: 0,
            segment: 0,
            output: String::new(),
            done: Vec::new(),
        };
        let below: Vec<Frame> = Vec::new();
        proof {
            assert(texts(Seq::<String>::empty()) =~= Seq::<Seq<char>>::empty());
            assert(frame_texts(below@).push(top@) =~= seq![
                first_frame(recipe as int, context.recursion_budget, 0),
            ]);
        }
        Some(drive(context, below, top))
    }
}

/// Whether `after` is `before` with the outcome of record `record` settled:
/// the record holds what the send resulted in, at the time of the context,
/// and nothing else has changed.
pub open spec fn settled(
    before: TemplateContext,
    after: TemplateContext,
    record: int,
    result: Result<Response, String>,
) -> bool {
    &&& same_setting(after, before)
    &&& 0 <= record < before.history.records().len()
    &&& after.history.records() == before.history.records().update(
        record,
        Record {
            request: before.history.records()[record].request,
            outcome: outcome_of(result, before.now),
        },
    )
}

impl RequestBuilder {
    /// Goes on with what came back for the request that the build had sent:
    /// a response, or the message of a failure. Either is recorded in
    /// history first, whatever becomes of the build. A failure ends the
    /// build: the chain has no response. From a response the chain's value is
    /// taken, and the build goes on behind the chain's key.
    pub fn receive(self, context: &mut TemplateContext, result: Result<Response, String>) -> (step:
        BuildStep)
        requires
            self.waits_in(*old(context)),
        ensures
            exists|mid: TemplateContext|
                {
                    &&& #[trigger] settled(*old(context), mid, self.record(), result)
                    &&& step_is(
                        step,
                        arrival(mid, mid.received(self.frames(), result)),
                        mid,
                        *final(context),
                    )
                },
            final(context).history.records().len() >= old(context).history.records().len(),
            final(context).history.records()[self.record()].request == old(
                context,
            ).history.records()[self.record()].request,
            final(context).history.records()[self.record()].outcome == outcome_of(
                result,
                old(context).now,
            ),
            result is Err ==> step is Failed,
    {
        let ghost frames = self.frames();
        let RequestBuilder { below, top, record } = self;
        let body = match &result {
            Ok(response) => Some(response.body.clone()),
            Err(_) => None,
        };
        let now = context.now;
        context.history.add_response(record, result, now);
        let ghost mid = *context;
        let mut stack = below;
        proof {
            assert(settled(*old(context), mid, record as int, result));
        }
        let asked = top.chain;
        let parent = match stack.pop() {
            Some(parent) => parent,
            None => unreached(),
        };
        let template = match context.recipes[parent.recipe].template(parent.done.len()) {
            Some(template) => template,
            None => unreached(),
        };
        let body = match body {
            Some(body) => body,
            None => {
                return BuildStep::Failed(
                    RenderError {
                        template: template.0.clone(),
                        error: TemplateError::ChainNoResponse {
                            chain_id: context.chains[asked].id.clone(),
                        },
                    },
                );
            },
        };
        let value = match value_in_body(
            &context.chains[asked],
            context.chains[asked].id.as_str(),
            &body,
        ) {
            Ok(value) => value,
            Err(error) => {
                return BuildStep::Failed(
                    RenderError { template: template.0.clone(), error: error.into_owned() },
                );
            },
        };
        let Frame { recipe, budget, chain, segment, output, done } = parent;
        let mut output = output;
        output.append(value.as_str());
        let resumed = Frame { recipe, budget, chain, segment, output, done };
        proof {
            let next = frame_texts(stack@).push(resumed@);
            assert(next == resumed_stack(frames, value@));
            lemma_resumed_stack(&mid, frames, value@);
        }
        let step = drive(context, stack, resumed);
        proof {
            assert(step_is(
                step,
                arrival(mid, mid.received(frames, result)),
                mid,
                *context,
            ));
            if step is Send {
                let kept = context.history.records().drop_last();
                assert(kept[record as int] == context.history.records()[record as int]);
            }
        }
        step
    }
}

} // verus!
