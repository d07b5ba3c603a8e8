//! Conversations with the services.
//!
//! A `Dialogue` is a mathematical account of a procedure that asks services and decides by their
//! replies: either it has its result, or it has a request and, for each reply, a dialogue to go on
//! with. A `Task` is the running counterpart: a state, which is handed a reply and yields the next
//! request or the result. Each task's contract says that it keeps to its dialogue.
use crate::service::{
    answers, is_reply, Config, ConfigView, Reply, ReplyView, RequestView, ServiceReply,
    ServiceRequest,
};
use crate::text::is_generated_room_id;
use vstd::prelude::*;

verus! {

/// A procedure that comes to a result of type `R`.
#[verifier::reject_recursive_types(R)]
pub enum Dialogue<R> {
    /// The result.
    Return(R),
    /// A request, and how to go on after each reply.
    Ask(RequestView, spec_fn(ReplyView) -> Dialogue<R>),
}

impl<R> Dialogue<R> {
    /// How the dialogue goes on after `reply` to its request.
    pub open spec fn after(self, reply: ReplyView) -> Dialogue<R> {
        (self->Ask_1)(reply)
    }

    /// This dialogue, and then the one that `next` gives for its result.
    pub open spec fn then_do<S>(self, next: spec_fn(R) -> Dialogue<S>) -> Dialogue<S>
        decreases self,
    {
        match self {
            Dialogue::Return(result) => next(result),
            Dialogue::Ask(request, resume) => Dialogue::Ask(
                request,
                |reply: ReplyView| resume(reply).then_do(next),
            ),
        }
    }
}

/// A reply in the first part of a composed dialogue moves that part on.
pub broadcast proof fn lemma_then_do_after<R, S>(
    dialogue: Dialogue<R>,
    next: spec_fn(R) -> Dialogue<S>,
    reply: ReplyView,
)
    requires
        dialogue is Ask,
    ensures
        (#[trigger] dialogue.then_do(next).after(reply)) == dialogue.after(reply).then_do(next),
{
}

/// A composed dialogue whose first part has its result is the second part.
pub broadcast proof fn lemma_then_do_return<R, S>(result: R, next: spec_fn(R) -> Dialogue<S>)
    ensures
        (#[trigger] Dialogue::Return(result).then_do(next)) == next(result),
{
}

/// A composed dialogue asks what its first part asks.
pub broadcast proof fn lemma_then_do_asks<R, S>(
    dialogue: Dialogue<R>,
    next: spec_fn(R) -> Dialogue<S>,
)
    requires
        dialogue is Ask,
    ensures
        (#[trigger] dialogue.then_do(next)) is Ask,
        dialogue.then_do(next)->Ask_0 == dialogue->Ask_0,
{
}

pub broadcast group group_then_do {
    lemma_then_do_after,
    lemma_then_do_return,
    lemma_then_do_asks,
}

/// Where a procedure stands: it has its output, or it has a request and waits for the reply.
pub enum Step<P, O> {
    Ask(ServiceRequest, P),
    Return(O),
}

/// A procedure in progress, and what is left of it.
pub trait Progress: Sized {
    /// What the procedure comes to.
    type Output;

    /// What contracts say of an output.
    type Result;

    /// What contracts say of `output`.
    spec fn result(output: Self::Output) -> Self::Result;

    /// What is left of the procedure, under the given settings.
    spec fn rest(self, config: ConfigView) -> Dialogue<Self::Result>;
}

/// Whether `step` is exactly where `dialogue` stands.
pub open spec fn stands_at<P: Progress>(
    step: Step<P, P::Output>,
    config: ConfigView,
    dialogue: Dialogue<P::Result>,
) -> bool {
    match step {
        Step::Ask(request, task) => {
            &&& dialogue is Ask
            &&& dialogue->Ask_0 == request@
            &&& !(request@ is NewRoomId)
            &&& task.rest(config) == dialogue
        },
        Step::Return(output) => dialogue == Dialogue::Return(P::result(output)),
    }
}

/// Whether `dialogue` goes on with a new room ID.
pub open spec fn draws<R>(dialogue: Dialogue<R>) -> bool {
    dialogue is Ask && dialogue->Ask_0 is NewRoomId
}

/// Whether `step` is where `dialogue` stands, once a room ID has been drawn where it goes on with
/// one.
pub open spec fn follows<P: Progress>(
    step: Step<P, P::Output>,
    config: ConfigView,
    dialogue: Dialogue<P::Result>,
) -> bool {
    if draws(dialogue) {
        step is Ask && exists|room: Seq<char>| #[trigger]
            is_generated_room_id(room, dialogue->Ask_0->NewRoomId_server) && stands_at(
                step,
                config,
                dialogue.after(Reply::Room(room)),
            )
    } else {
        stands_at(step, config, dialogue)
    }
}

/// A procedure in progress, which waits for the reply to a request.
pub trait Task: Progress {
    /// Goes on after `reply` to the request that the procedure waits for.
    fn resume(self, config: &Config, reply: ServiceReply) -> (step: Step<Self, Self::Output>)
        requires
            self.rest(config@) is Ask,
            answers(self.rest(config@)->Ask_0, reply@),
        ensures
            follows(step, config@, self.rest(config@).after(reply@)),
    ;
}

/// One request with the reply to it.
pub struct Exchange {
    pub request: RequestView,
    pub reply: ReplyView,
}

/// What a dialogue comes to over `talk`, if that is the whole of a conversation that it can have.
pub open spec fn conclusion<R>(dialogue: Dialogue<R>, talk: Seq<Exchange>) -> Option<R>
    decreases talk.len(),
{
    match dialogue {
        Dialogue::Return(result) => if talk.len() == 0 {
            Some(result)
        } else {
            None
        },
        Dialogue::Ask(request, resume) => if talk.len() > 0 && talk[0].request == request
            && is_reply(request, talk[0].reply) {
            conclusion(resume(talk[0].reply), talk.drop_first())
        } else {
            None
        },
    }
}

/// A procedure that has its output has come to what its dialogue comes to.
pub proof fn law_output_is_the_conclusion<P: Progress>(
    step: Step<P, P::Output>,
    config: ConfigView,
    dialogue: Dialogue<P::Result>,
)
    requires
        follows(step, config, dialogue),
        step is Return,
    ensures
        conclusion(dialogue, Seq::empty()) == Some(P::result(step->Return_0)),
{
}

/// What a procedure has drawn by the time it asks, where its dialogue goes on with a new room ID.
pub open spec fn is_drawn<R>(dialogue: Dialogue<R>, drawn: Seq<Exchange>) -> bool {
    if draws(dialogue) {
        drawn.len() == 1 && drawn[0].request == dialogue->Ask_0 && is_reply(
            drawn[0].request,
            drawn[0].reply,
        )
    } else {
        drawn.len() == 0
    }
}

/// A procedure that asks has the conversations of its dialogue: what it has drawn, the request, a
/// reply to it, and then whatever conversation there is from there on, to the same end.
pub proof fn law_request_opens_the_conversation<P: Progress>(
    step: Step<P, P::Output>,
    config: ConfigView,
    dialogue: Dialogue<P::Result>,
    reply: ReplyView,
    rest: Seq<Exchange>,
)
    requires
        follows(step, config, dialogue),
        step is Ask,
        answers(step->Ask_0@, reply),
    ensures
        exists|drawn: Seq<Exchange>| #[trigger]
            is_drawn(dialogue, drawn) && conclusion(
                dialogue,
                drawn + seq![Exchange { request: step->Ask_0@, reply }] + rest,
            ) == conclusion(step->Ask_1.rest(config).after(reply), rest),
{
    let asked = seq![Exchange { request: step->Ask_0@, reply }] + rest;
    assert(asked.drop_first() =~= rest);
    if draws(dialogue) {
        let room = choose|room: Seq<char>| #[trigger]
            is_generated_room_id(room, dialogue->Ask_0->NewRoomId_server) && stands_at(
                step,
                config,
                dialogue.after(Reply::Room(room)),
            );
        let drawn = seq![Exchange { request: dialogue->Ask_0, reply: Reply::Room(room) }];
        let talk = drawn + seq![Exchange { request: step->Ask_0@, reply }] + rest;
        assert(talk.drop_first() =~= asked);
        assert(is_drawn(dialogue, drawn));
        assert(conclusion(dialogue, talk) == conclusion(
            dialogue.after(Reply::Room(room)),
            asked,
        ));
    } else {
        let drawn = Seq::<Exchange>::empty();
        assert(drawn + seq![Exchange { request: step->Ask_0@, reply }] + rest =~= asked);
        assert(is_drawn(dialogue, drawn));
    }
}

/// A conversation of a composed dialogue is one of its first part, and then one of the second.
pub proof fn lemma_conversation_parts<R, S>(
    dialogue: Dialogue<R>,
    next: spec_fn(R) -> Dialogue<S>,
    talk: Seq<Exchange>,
) -> (cut: int)
    requires
        conclusion(dialogue.then_do(next), talk) is Some,
    ensures
        0 <= cut <= talk.len(),
        conclusion(dialogue, talk.take(cut)) is Some,
        conclusion(next(conclusion(dialogue, talk.take(cut))->0), talk.skip(cut)) == conclusion(
            dialogue.then_do(next),
            talk,
        ),
    decreases talk.len(),
{
    match dialogue {
        Dialogue::Return(result) => {
            assert(talk.take(0).len() == 0);
            assert(talk.skip(0) =~= talk);
            0
        },
        Dialogue::Ask(request, resume) => {
            let rest = talk.drop_first();
            let after = lemma_conversation_parts(resume(talk[0].reply), next, rest);
            assert(talk.take(after + 1).drop_first() =~= rest.take(after));
            assert(talk.skip(after + 1) =~= rest.skip(after));
            after + 1
        },
    }
}

/// Every reply in a conversation is of the kind that was asked for.
pub proof fn lemma_talk_answers<R>(dialogue: Dialogue<R>, talk: Seq<Exchange>, i: int)
    requires
        conclusion(dialogue, talk) is Some,
        0 <= i < talk.len(),
    ensures
        is_reply(talk[i].request, talk[i].reply),
    decreases talk.len(),
{
    if i > 0 {
        assert(talk.drop_first()[i - 1] == talk[i]);
        lemma_talk_answers(dialogue.after(talk[0].reply), talk.drop_first(), i - 1);
    }
}

} // verus!
