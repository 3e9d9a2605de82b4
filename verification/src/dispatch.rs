//! Handing packets to handlers: the datagram to the raw handler, the decoded
//! packet to the packet handler, and each applied message to the message
//! handler, in depth-first order.

use vstd::prelude::*;
use crate::buffer::{future_count, latest_first, tail_reversed, DelayedModel};
use crate::clock::{is_due, now};
use crate::codec::{decode, wire_decoded, DecodeFailure};
use crate::destructure::{
    applied_messages, applied_messages_of, applies, lemma_children_apply_in_order, lemma_plan_applies_in_order,
    message_models, plans, put_off, put_off_all, put_off_released, Destructurer, Released,
};
use crate::handler::{MessageHandler, PacketHandler, RawPacketHandler};
use crate::packet::{BundleModel, MessageModel, OscMessage, Packet, PacketModel};
use crate::results::{flattened, flattened_all, lemma_flattened_all_take, Results};

verus! {

/// Whether `results` is the tree of `plan` with an output in the place of
/// each message: the same bundles, and the same names for what is put off.
pub open spec fn same_shape<A, B>(results: Results<A>, plan: Results<B>) -> bool
    decreases plan,
{
    match plan {
        Results::OscMessage(_) => results is OscMessage,
        Results::OscBundle(children) => results is OscBundle && results->OscBundle_0@.len() == children@.len()
            && forall|i: int|
            0 <= i < children@.len() ==> same_shape(results->OscBundle_0@[i], #[trigger] children@[i]),
        Results::NotYetApplied(id) => results is NotYetApplied && results->NotYetApplied_0 == id,
    }
}

/// Whether `results` is the tree of what becomes of `packet` at the instant
/// `now`: an output for a message, the trees of its packets for a bundle that
/// is due, and a name for a bundle that is put off.
pub open spec fn shaped<T>(results: Results<T>, packet: PacketModel, now: int) -> bool
    decreases results,
{
    match packet {
        PacketModel::Message(_) => results is OscMessage,
        PacketModel::Bundle(b) => if is_due(b.timetag, now) {
            shaped_bundle(results, b, now)
        } else {
            results is NotYetApplied
        },
    }
}

/// Whether `results` is the tree of what becomes of the packets of `bundle`
/// when the bundle is applied at `now`.
pub open spec fn shaped_bundle<T>(results: Results<T>, bundle: BundleModel, now: int) -> bool
    decreases results, 0nat,
{
    results is OscBundle && results->OscBundle_0@.len() == bundle.content.len() && forall|i: int|
        0 <= i < results->OscBundle_0@.len() ==> shaped(#[trigger] results->OscBundle_0@[i], bundle.content[i], now)
}

/// Whether a handler that was `before` took in `messages` one after another,
/// in this order, gave `outputs` for them, each output for the message at its
/// place, and was `after` in the end: each call kept the handler's promise,
/// and each began with the handler as the call before had left it.
pub open spec fn handled_in_turn<H: MessageHandler>(
    before: H,
    after: H,
    messages: Seq<MessageModel>,
    outputs: Seq<H::Output>,
) -> bool
    decreases messages.len(),
{
    if messages.len() == 0 {
        after == before && outputs.len() == 0
    } else {
        outputs.len() == messages.len() && exists|mid: H|
            handled_in_turn(before, mid, messages.drop_last(), outputs.drop_last()) && #[trigger] mid.answers(
                &after,
                messages.last(),
                outputs.last(),
            )
    }
}

/// A handler that took in some messages in turn and then some more took in
/// all of them in turn.
pub proof fn lemma_handled_in_turn_then<H: MessageHandler>(
    a: H,
    b: H,
    c: H,
    first: Seq<MessageModel>,
    first_outputs: Seq<H::Output>,
    then: Seq<MessageModel>,
    then_outputs: Seq<H::Output>,
)
    requires
        handled_in_turn(a, b, first, first_outputs),
        handled_in_turn(b, c, then, then_outputs),
    ensures
        handled_in_turn(a, c, first + then, first_outputs + then_outputs),
    decreases then.len(),
{
    lemma_handled_lengths(a, b, first, first_outputs);
    if then.len() == 0 {
        assert(first + then =~= first);
        assert(first_outputs + then_outputs =~= first_outputs);
    } else {
        let mid = choose|mid: H|
            handled_in_turn(b, mid, then.drop_last(), then_outputs.drop_last()) && #[trigger] mid.answers(
                &c,
                then.last(),
                then_outputs.last(),
            );
        lemma_handled_in_turn_then(a, b, mid, first, first_outputs, then.drop_last(), then_outputs.drop_last());
        assert((first + then).drop_last() =~= first + then.drop_last());
        assert((first_outputs + then_outputs).drop_last() =~= first_outputs + then_outputs.drop_last());
        assert((first + then).last() == then.last());
        assert((first_outputs + then_outputs).last() == then_outputs.last());
        assert(mid.answers(&c, (first + then).last(), (first_outputs + then_outputs).last()));
    }
}

/// There is one output for each message that a handler took in.
pub proof fn lemma_handled_lengths<H: MessageHandler>(
    before: H,
    after: H,
    messages: Seq<MessageModel>,
    outputs: Seq<H::Output>,
)
    requires
        handled_in_turn(before, after, messages, outputs),
    ensures
        outputs.len() == messages.len(),
{
}

/// One call of a handler is a turn of one message.
pub proof fn lemma_handled_once<H: MessageHandler>(before: H, after: H, message: MessageModel, output: H::Output)
    requires
        before.answers(&after, message, output),
    ensures
        handled_in_turn(before, after, seq![message], seq![output]),
{
    let messages = seq![message];
    let outputs = seq![output];
    assert(messages.drop_last() =~= Seq::<MessageModel>::empty());
    assert(outputs.drop_last() =~= Seq::<H::Output>::empty());
    assert(messages.last() == message);
    assert(outputs.last() == output);
    assert(handled_in_turn(before, before, messages.drop_last(), outputs.drop_last()));
    assert(before.answers(&after, messages.last(), outputs.last()));
    assert(messages.len() == 1 && outputs.len() == 1);
    assert(handled_in_turn(before, after, messages, outputs));
}

/// Whether `results` is what the handler made of `packet` at the instant
/// `now`: the tree of what becomes of the packet, and in it, in depth-first
/// order, the outputs that the handler gave for the messages that are
/// applied, which it took in one after another in that order.
pub open spec fn answered<H: MessageHandler>(
    before: H,
    after: H,
    results: Results<H::Output>,
    packet: PacketModel,
    now: int,
) -> bool {
    shaped(results, packet, now) && handled_in_turn(before, after, applied_messages(packet, now), flattened(results))
}

/// Plans that put off the same bundles place by place put off the same
/// bundles altogether.
pub proof fn lemma_put_off_all_same<A, B>(xs: Seq<Results<A>>, ys: Seq<Results<B>>, content: Seq<PacketModel>)
    requires
        xs.len() == ys.len(),
        forall|i: int| 0 <= i < xs.len() ==> put_off(#[trigger] xs[i], content[i]) == put_off(ys[i], content[i]),
    ensures
        put_off_all(xs, content) == put_off_all(ys, content),
    decreases xs.len(),
{
    if xs.len() > 0 {
        let fx = xs.drop_last();
        let fy = ys.drop_last();
        assert forall|i: int| 0 <= i < fx.len() implies put_off(#[trigger] fx[i], content[i]) == put_off(
            fy[i],
            content[i],
        ) by {
            assert(fx[i] == xs[i] && fy[i] == ys[i]);
        }
        lemma_put_off_all_same(fx, fy, content);
        assert(put_off(xs[xs.len() - 1], content[xs.len() - 1]) == put_off(ys[xs.len() - 1], content[xs.len() - 1]));
    }
}

/// A tree of outputs in the shape of a plan is the tree of what becomes of the
/// plan's packet, and puts off what the plan puts off.
pub proof fn lemma_shape_of_plan<T>(results: Results<T>, plan: Results<OscMessage>, packet: PacketModel, now: int)
    requires
        same_shape(results, plan),
        plans(plan, packet, now),
    ensures
        shaped(results, packet, now),
        put_off(results, packet) == put_off(plan, packet),
    decreases plan,
{
    match packet {
        PacketModel::Message(m) => {},
        PacketModel::Bundle(b) => {
            if is_due(b.timetag, now) {
                let outs = results->OscBundle_0@;
                let children = plan->OscBundle_0@;
                assert forall|i: int| 0 <= i < outs.len() implies shaped(#[trigger] outs[i], b.content[i], now)
                    && put_off(outs[i], b.content[i]) == put_off(children[i], b.content[i]) by {
                    assert(same_shape(outs[i], children[i]));
                    assert(plans(children[i], b.content[i], now));
                    assert(decreases_to!(plan => plan->OscBundle_0));
                    vstd::std_specs::vec::axiom_vec_index_decreases(plan->OscBundle_0, i);
                    lemma_shape_of_plan(outs[i], children[i], b.content[i], now);
                }
                lemma_put_off_all_same(outs, children, b.content);
            }
        },
    }
}

/// A tree of outputs in the shape of the plan of an applied bundle is the tree
/// of what becomes of the bundle's packets, and puts off what the plan puts off.
pub proof fn lemma_shape_of_bundle<T>(results: Results<T>, plan: Results<OscMessage>, bundle: BundleModel, now: int)
    requires
        same_shape(results, plan),
        applies(plan, bundle, now),
    ensures
        shaped_bundle(results, bundle, now),
        put_off_all(results->OscBundle_0@, bundle.content) == put_off_all(plan->OscBundle_0@, bundle.content),
{
    let outs = results->OscBundle_0@;
    let children = plan->OscBundle_0@;
    assert forall|i: int| 0 <= i < outs.len() implies shaped(#[trigger] outs[i], bundle.content[i], now) && put_off(
        outs[i],
        bundle.content[i],
    ) == put_off(children[i], bundle.content[i]) by {
        assert(same_shape(outs[i], children[i]));
        assert(plans(children[i], bundle.content[i], now));
        lemma_shape_of_plan(outs[i], children[i], bundle.content[i], now);
    }
    lemma_put_off_all_same(outs, children, bundle.content);
}

/// The models of messages one after another are the models of the first,
/// then those of the rest.
pub proof fn lemma_message_models_add(first: Seq<OscMessage>, then: Seq<OscMessage>)
    ensures
        message_models(first + then) == message_models(first) + message_models(then),
{
    assert(message_models(first + then) =~= message_models(first) + message_models(then));
}

/// Hands each message of `plan` to `handler`, one after another in depth-first
/// order, and puts its output in the message's place.
pub fn run<H: MessageHandler>(handler: &mut H, plan: &Results<OscMessage>) -> (results: Results<H::Output>)
    ensures
        same_shape(results, *plan),
        handled_in_turn(*old(handler), *final(handler), message_models(flattened(*plan)), flattened(results)),
    decreases plan,
{
    match plan {
        Results::OscMessage(m) => {
            let output = handler.handle(m);
            proof {
                lemma_handled_once(*old(handler), *handler, m@, output);
                assert(message_models(flattened(*plan)) =~= seq![m@]);
            }
            Results::OscMessage(output)
        },
        Results::OscBundle(children) => {
            let mut outs: Vec<Results<H::Output>> = Vec::new();
            let mut i: usize = 0;
            proof {
                assert(children@.take(0) =~= Seq::<Results<OscMessage>>::empty());
                assert(message_models(flattened_all(children@.take(0))) =~= Seq::<MessageModel>::empty());
            }
            while i < children.len()
                invariant
                    plan is OscBundle,
                    plan->OscBundle_0 == *children,
                    i <= children.len(),
                    outs@.len() == i,
                    forall|k: int| 0 <= k < i ==> same_shape(outs@[k], #[trigger] children@[k]),
                    handled_in_turn(
                        *old(handler),
                        *handler,
                        message_models(flattened_all(children@.take(i as int))),
                        flattened_all(outs@),
                    ),
                decreases children.len() - i,
            {
                let ghost here = *handler;
                let ghost done = outs@;
                proof {
                    assert(decreases_to!(plan => plan->OscBundle_0));
                    vstd::std_specs::vec::axiom_vec_index_decreases(*children, i as int);
                }
                let out = run(handler, &children[i]);
                outs.push(out);
                proof {
                    lemma_flattened_all_take(children@, i as int);
                    lemma_message_models_add(flattened_all(children@.take(i as int)), flattened(children@[i as int]));
                    assert(outs@.drop_last() =~= done);
                    assert(outs@.last() == out);
                    lemma_handled_in_turn_then(
                        *old(handler),
                        here,
                        *handler,
                        message_models(flattened_all(children@.take(i as int))),
                        flattened_all(done),
                        message_models(flattened(children@[i as int])),
                        flattened(out),
                    );
                }
                i += 1;
            }
            proof {
                assert(children@.take(children@.len() as int) =~= children@);
            }
            Results::OscBundle(outs)
        },
        Results::NotYetApplied(id) => {
            proof {
                assert(message_models(flattened(*plan)) =~= Seq::<MessageModel>::empty());
            }
            Results::NotYetApplied(*id)
        },
    }
}

/// Bundles released with plans that put off the same bundles place by place
/// put off the same bundles altogether.
pub proof fn lemma_put_off_released_same<A, B>(xs: Seq<Released<A>>, ys: Seq<Released<B>>, ready: Seq<DelayedModel>)
    requires
        xs.len() == ys.len(),
        forall|i: int|
            0 <= i < xs.len() ==> put_off_all((#[trigger] xs[i]).plan->OscBundle_0@, ready[i].bundle.content)
                == put_off_all(ys[i].plan->OscBundle_0@, ready[i].bundle.content),
    ensures
        put_off_released(xs, ready) == put_off_released(ys, ready),
    decreases xs.len(),
{
    if xs.len() > 0 {
        let fx = xs.drop_last();
        let fy = ys.drop_last();
        assert forall|i: int| 0 <= i < fx.len() implies put_off_all(
            (#[trigger] fx[i]).plan->OscBundle_0@,
            ready[i].bundle.content,
        ) == put_off_all(fy[i].plan->OscBundle_0@, ready[i].bundle.content) by {
            assert(fx[i] == xs[i] && fy[i] == ys[i]);
        }
        lemma_put_off_released_same(fx, fy, ready);
        let n = xs.len() - 1;
        assert(put_off_all(xs[n].plan->OscBundle_0@, ready[n].bundle.content) == put_off_all(
            ys[n].plan->OscBundle_0@,
            ready[n].bundle.content,
        ));
    }
}

/// The messages that are applied when the bundles of `ready` are applied at
/// `now`, one bundle after another.
pub open spec fn released_messages(ready: Seq<DelayedModel>, now: int) -> Seq<MessageModel>
    decreases ready.len(),
{
    if ready.len() == 0 {
        Seq::empty()
    } else {
        released_messages(ready.drop_last(), now) + applied_messages_of(ready.last().bundle.content, now)
    }
}

/// The outputs in the trees of `released`, in depth-first order, one tree
/// after another.
pub open spec fn released_outputs<T>(released: Seq<Released<T>>) -> Seq<T>
    decreases released.len(),
{
    if released.len() == 0 {
        Seq::empty()
    } else {
        released_outputs(released.drop_last()) + flattened(released.last().plan)
    }
}

/// A destructurer with its handlers: one for the datagrams, one for the
/// decoded packets, and one for the messages that are applied.
pub struct MessageDestructuring<H: MessageHandler, P: PacketHandler, R: RawPacketHandler> {
    core: Destructurer,
    pub message_handler: H,
    pub packet_handler: P,
    pub raw_handler: R,
}

/// What the handlers made of a datagram: the outputs of the raw handler and of
/// the packet handler, the outputs for the applied messages in the packet's
/// tree, and the number of bytes that follow the packet in the datagram.
pub struct Handled<R, P, T> {
    pub rest_len: usize,
    pub raw: R,
    pub packet: P,
    pub results: Results<T>,
}

impl<H: MessageHandler, P: PacketHandler, R: RawPacketHandler> View for MessageDestructuring<H, P, R> {
    type V = Seq<DelayedModel>;

    closed spec fn view(&self) -> Seq<DelayedModel> {
        self.core@
    }
}

impl<H: MessageHandler, P: PacketHandler, R: RawPacketHandler> MessageDestructuring<H, P, R> {
    /// The handler of the messages that are applied.
    pub closed spec fn messages(&self) -> H {
        self.message_handler
    }

    /// The handler of the decoded packets.
    pub closed spec fn packets(&self) -> P {
        self.packet_handler
    }

    /// The handler of the datagrams.
    pub closed spec fn raws(&self) -> R {
        self.raw_handler
    }

    /// What handing `packet` out at the instant `now` comes to, from `self`
    /// before to `after`: the packet handler answers for the packet, the
    /// message handler for each applied message of the same packet, in
    /// depth-first order, the raw handler is left alone, and the bundles that
    /// are put off wait from now on.
    pub open spec fn packet_handled(
        &self,
        after: &Self,
        packet: PacketModel,
        now: int,
        output: P::Output,
        results: Results<H::Output>,
    ) -> bool {
        &&& self.packets().answers(&after.packets(), packet, output)
        &&& answered::<H>(self.messages(), after.messages(), results, packet, now)
        &&& after.raws() == self.raws()
        &&& after@.to_multiset() == self@.to_multiset().add(put_off(results, packet))
    }

    /// What handing the bytes `bytes` to the raw handler alone comes to.
    pub open spec fn undecoded_handled(&self, after: &Self, bytes: Seq<u8>, output: R::Output) -> bool {
        &&& self.raws().answers(&after.raws(), bytes, output)
        &&& after.messages() == self.messages()
        &&& after.packets() == self.packets()
        &&& after@ == self@
    }

    /// What handing the datagram `bytes` out at the instant `now` comes to.
    /// Bytes that do not decode reach no handler and change nothing. Of bytes
    /// that do, the raw handler answers for exactly these bytes, and then the
    /// decoded packet is handed out as `packet_handled` says.
    pub open spec fn raw_handled(
        &self,
        after: &Self,
        bytes: Seq<u8>,
        now: int,
        outcome: Result<Handled<R::Output, P::Output, H::Output>, DecodeFailure>,
    ) -> bool {
        match outcome {
            Err(e) => {
                &&& wire_decoded(bytes) is Err
                &&& wire_decoded(bytes)->Err_0 == e.kind
                &&& after@ == self@
                &&& after.messages() == self.messages()
                &&& after.packets() == self.packets()
                &&& after.raws() == self.raws()
            },
            Ok(h) => {
                &&& wire_decoded(bytes) is Ok
                &&& h.rest_len == wire_decoded(bytes)->Ok_0.rest_len
                &&& h.rest_len <= bytes.len()
                &&& self.raws().answers(&after.raws(), bytes, h.raw)
                &&& self.packets().answers(&after.packets(), wire_decoded(bytes)->Ok_0.packet, h.packet)
                &&& answered::<H>(
                    self.messages(),
                    after.messages(),
                    h.results,
                    wire_decoded(bytes)->Ok_0.packet,
                    now,
                )
                &&& after@.to_multiset() == self@.to_multiset().add(
                    put_off(h.results, wire_decoded(bytes)->Ok_0.packet),
                )
            },
        }
    }

    /// What a check for due bundles at the instant `now` comes to. The bundles
    /// wait latest first; those that are due leave, earliest first; each is
    /// applied, the message handler taking in their messages bundle after
    /// bundle; and what their packets put off waits from now on.
    pub open spec fn bundles_released(&self, after: &Self, now: int, released: Seq<Released<H::Output>>) -> bool {
        let k = future_count(self@, now) as int;
        let ready = tail_reversed(self@, k);
        &&& latest_first(self@)
        &&& released.len() == ready.len()
        &&& forall|i: int|
            0 <= i < released.len() ==> (#[trigger] released[i]).id == ready[i].id && ready[i].release <= now
                && shaped_bundle(released[i].plan, ready[i].bundle, now)
        &&& handled_in_turn(
            self.messages(),
            after.messages(),
            released_messages(ready, now),
            released_outputs(released),
        )
        &&& after.packets() == self.packets()
        &&& after.raws() == self.raws()
        &&& after@.to_multiset() == self@.take(k).to_multiset().add(put_off_released(released, ready))
    }

    /// A destructurer with these handlers and no bundle waiting.
    pub fn new(message_handler: H, packet_handler: P, raw_handler: R) -> (d: Self)
        ensures
            d@ == Seq::<DelayedModel>::empty(),
            d.messages() == message_handler,
            d.packets() == packet_handler,
            d.raws() == raw_handler,
    {
        Self { core: Destructurer::new(), message_handler, packet_handler, raw_handler }
    }

    /// The number of bundles that wait. They are ordered by their release
    /// time, latest first.
    pub fn waiting(&self) -> (n: usize)
        ensures
            n == self@.len(),
            latest_first(self@),
    {
        self.core.waiting()
    }

    /// Hands `bytes` to the raw handler as they are, undecoded.
    pub fn handle_undecoded(&mut self, bytes: &[u8]) -> (output: R::Output)
        ensures
            old(self).undecoded_handled(final(self), bytes@, output),
    {
        self.raw_handler.handle(bytes)
    }

    /// Hands `packet` out at the instant `now`, in nanoseconds since 1970.
    pub fn handle_packet_at(&mut self, packet: &Packet, now: i128) -> (out: (P::Output, Results<H::Output>))
        ensures
            old(self).packet_handled(final(self), packet@, now as int, out.0, out.1),
    {
        let output = self.packet_handler.handle(packet);
        let plan = self.core.plan_packet(packet, now);
        let results = run(&mut self.message_handler, &plan);
        proof {
            lemma_shape_of_plan(results, plan, packet@, now as int);
            lemma_plan_applies_in_order(plan, packet@, now as int);
        }
        (output, results)
    }

    /// Hands `packet` out at the instant of the call.
    pub fn handle_packet(&mut self, packet: &Packet) -> (out: (P::Output, Results<H::Output>))
        ensures
            exists|at: int| old(self).packet_handled(final(self), packet@, at, out.0, out.1),
    {
        let at = now();
        let out = self.handle_packet_at(packet, at);
        proof {
            assert(old(self).packet_handled(self, packet@, at as int, out.0, out.1));
        }
        out
    }

    /// Decodes the first packet in `bytes` and hands the datagram and the
    /// packet out at the instant `now`.
    pub fn handle_raw_packet_at(&mut self, bytes: &[u8], now: i128) -> (outcome: Result<
        Handled<R::Output, P::Output, H::Output>,
        DecodeFailure,
    >)
        ensures
            old(self).raw_handled(final(self), bytes@, now as int, outcome),
    {
        match decode(bytes) {
            Err(e) => Err(e),
            Ok(decoded) => {
                let raw = self.raw_handler.handle(bytes);
                let (packet, results) = self.handle_packet_at(&decoded.packet, now);
                Ok(Handled { rest_len: decoded.rest_len, raw, packet, results })
            },
        }
    }

    /// Decodes the first packet in `bytes` and hands the datagram and the
    /// packet out at the instant of the call.
    pub fn handle_raw_packet(&mut self, bytes: &[u8]) -> (outcome: Result<
        Handled<R::Output, P::Output, H::Output>,
        DecodeFailure,
    >)
        ensures
            exists|at: int| old(self).raw_handled(final(self), bytes@, at, outcome),
    {
        let at = now();
        let outcome = self.handle_raw_packet_at(bytes, at);
        proof {
            assert(old(self).raw_handled(self, bytes@, at as int, outcome));
        }
        outcome
    }

    /// Applies the bundles that are due at the instant `now`, earliest first.
    pub fn check_osc_bundles_at(&mut self, now: i128) -> (released: Vec<Released<H::Output>>)
        ensures
            latest_first(old(self)@),
            old(self).bundles_released(final(self), now as int, released@),
    {
        let ghost k = future_count(old(self)@, now as int) as int;
        let ghost ready = tail_reversed(old(self)@, k);
        let plans = self.core.tick(now);
        let ghost after = self@;
        let mut released: Vec<Released<H::Output>> = Vec::new();
        let mut i: usize = 0;
        proof {
            assert(ready.take(0) =~= Seq::<DelayedModel>::empty());
        }
        while i < plans.len()
            invariant
                self@ == after,
                self.packets() == old(self).packets(),
                self.raws() == old(self).raws(),
                i <= plans.len(),
                released@.len() == i,
                plans@.len() == ready.len(),
                forall|j: int|
                    0 <= j < plans@.len() ==> (#[trigger] plans@[j]).id == ready[j].id && ready[j].release <= now
                        && applies(plans@[j].plan, ready[j].bundle, now as int),
                forall|j: int|
                    0 <= j < i ==> (#[trigger] released@[j]).id == ready[j].id && shaped_bundle(
                        released@[j].plan,
                        ready[j].bundle,
                        now as int,
                    ) && put_off_all(released@[j].plan->OscBundle_0@, ready[j].bundle.content) == put_off_all(
                        plans@[j].plan->OscBundle_0@,
                        ready[j].bundle.content,
                    ),
                handled_in_turn(
                    old(self).messages(),
                    self.messages(),
                    released_messages(ready.take(i as int), now as int),
                    released_outputs(released@),
                ),
            decreases plans.len() - i,
        {
            let ghost here = self.messages();
            let ghost done = released@;
            let results = run(&mut self.message_handler, &plans[i].plan);
            proof {
                let plan = plans@[i as int].plan;
                let bundle = ready[i as int].bundle;
                lemma_shape_of_bundle(results, plan, bundle, now as int);
                lemma_children_apply_in_order(plan->OscBundle_0@, bundle.content, now as int);
            }
            released.push(Released { id: plans[i].id, plan: results });
            proof {
                assert(released@.drop_last() =~= done);
                assert(ready.take(i + 1).drop_last() =~= ready.take(i as int));
                assert(ready.take(i + 1).last() == ready[i as int]);
                lemma_handled_in_turn_then(
                    old(self).messages(),
                    here,
                    self.messages(),
                    released_messages(ready.take(i as int), now as int),
                    released_outputs(done),
                    applied_messages_of(ready[i as int].bundle.content, now as int),
                    flattened(results),
                );
            }
            i += 1;
        }
        proof {
            assert(ready.take(ready.len() as int) =~= ready);
            lemma_put_off_released_same(released@, plans@, ready);
        }
        released
    }

    /// Applies the bundles that are due at the instant of the call, earliest
    /// first.
    #[must_use]
    pub fn check_osc_bundles(&mut self) -> (released: Vec<Released<H::Output>>)
        ensures
            latest_first(old(self)@),
            exists|at: int| old(self).bundles_released(final(self), at, released@),
    {
        let at = now();
        let released = self.check_osc_bundles_at(at);
        proof {
            assert(old(self).bundles_released(self, at as int, released@));
        }
        released
    }
}

} // verus!
