//! Taking packets apart: which messages are applied now, and which bundles
//! are put off until their time.

use vstd::prelude::*;
use vstd::multiset::Multiset;
use crate::buffer::{
    future_count, latest_first, tail_reversed, CorrelationId, DelayedBuffer, DelayedModel,
};
use crate::codec::{decode, wire_decoded, DecodeError, DecodeFailure, DecodedModel};
use crate::clock::{due, is_due, release_of, release_time};
use crate::packet::{
    all_messages, all_messages_of, lemma_bundle_model, BundleModel, MessageModel, OscBundle, OscMessage, Packet,
    PacketModel,
};
use crate::results::{flattened, flattened_all, Results};

verus! {

/// Whether `plan` is what becomes of `packet` at the instant `now`: a message
/// is applied; a bundle that is due is applied, packet by packet in order;
/// a bundle that is not due is put off.
pub open spec fn plans(plan: Results<OscMessage>, packet: PacketModel, now: int) -> bool
    decreases plan,
{
    match packet {
        PacketModel::Message(m) => plan is OscMessage && plan->OscMessage_0@ == m,
        PacketModel::Bundle(b) => if is_due(b.timetag, now) {
            plan is OscBundle && plan->OscBundle_0@.len() == b.content.len() && forall|i: int|
                0 <= i < plan->OscBundle_0@.len() ==> plans(#[trigger] plan->OscBundle_0@[i], b.content[i], now)
        } else {
            plan is NotYetApplied
        },
    }
}

/// Whether `plan` is what becomes of the bundle `bundle` when it is applied at
/// `now` whatever its own time tag says: what becomes of each of its packets.
pub open spec fn applies(plan: Results<OscMessage>, bundle: BundleModel, now: int) -> bool {
    plan is OscBundle && plan->OscBundle_0@.len() == bundle.content.len() && forall|i: int|
        0 <= i < plan->OscBundle_0@.len() ==> plans(#[trigger] plan->OscBundle_0@[i], bundle.content[i], now)
}

/// The bundles that `plan` puts off, of `packet`, each with its release time
/// and the name that the plan gives it.
pub open spec fn put_off<T>(plan: Results<T>, packet: PacketModel) -> Multiset<DelayedModel>
    decreases plan, 0nat,
{
    match (plan, packet) {
        (Results::NotYetApplied(id), PacketModel::Bundle(b)) => Multiset::singleton(
            DelayedModel { release: release_time(b.timetag), id, bundle: b },
        ),
        (Results::OscBundle(children), PacketModel::Bundle(b)) => put_off_all(children@, b.content),
        _ => Multiset::empty(),
    }
}

/// The bundles that `children` put off, of the packets of `content` at the
/// same places.
pub open spec fn put_off_all<T>(children: Seq<Results<T>>, content: Seq<PacketModel>) -> Multiset<DelayedModel>
    decreases children, 1nat,
{
    if children.len() == 0 {
        Multiset::empty()
    } else {
        put_off_all(children.drop_last(), content).add(put_off(children.last(), content[children.len() - 1]))
    }
}

/// One bundle that was put off and has now been applied: its name, and what
/// became of it.
pub struct Released<T> {
    pub id: CorrelationId,
    pub plan: Results<T>,
}

/// The bundles that the plans of `released` put off, of the bundles of `ready`
/// at the same places.
pub open spec fn put_off_released<T>(released: Seq<Released<T>>, ready: Seq<DelayedModel>) -> Multiset<DelayedModel>
    decreases released.len(),
{
    if released.len() == 0 {
        Multiset::empty()
    } else {
        put_off_released(released.drop_last(), ready).add(
            put_off_all(released.last().plan->OscBundle_0@, ready[released.len() - 1].bundle.content),
        )
    }
}

/// A decoded datagram taken apart: the packet, what became of it, and the
/// number of bytes that follow the packet in the datagram.
pub struct RawPlan {
    pub packet: Packet,
    pub plan: Results<OscMessage>,
    pub rest_len: usize,
}

/// What takes packets apart. It holds the bundles that were put off.
pub struct Destructurer {
    buffer: DelayedBuffer,
}

impl View for Destructurer {
    type V = Seq<DelayedModel>;

    closed spec fn view(&self) -> Seq<DelayedModel> {
        self.buffer@
    }
}

impl Destructurer {
    /// A destructurer with no bundle waiting.
    pub fn new() -> (d: Self)
        ensures
            d@ == Seq::<DelayedModel>::empty(),
    {
        Destructurer { buffer: DelayedBuffer::new() }
    }

    /// The number of bundles that wait. They are ordered by their release
    /// time, latest first.
    pub fn waiting(&self) -> (n: usize)
        ensures
            n == self@.len(),
            latest_first(self@),
    {
        self.buffer.len()
    }

    /// Applies the packets of `bundle` at `now`, in order.
    fn apply_bundle(&mut self, bundle: &OscBundle, now: i128) -> (plan: Results<OscMessage>)
        ensures
            applies(plan, bundle@, now as int),
            final(self)@.to_multiset() == old(self)@.to_multiset().add(put_off_all(plan->OscBundle_0@, bundle@.content)),
        decreases bundle,
    {
        let mut children: Vec<Results<OscMessage>> = Vec::new();
        let ghost content = bundle@.content;
        let mut i: usize = 0;
        proof {
            assert(self@.to_multiset() =~= old(self)@.to_multiset().add(put_off_all(children@, content)));
        }
        while i < bundle.content.len()
            invariant
                    content == bundle@.content,
                i <= bundle.content.len(),
                children@.len() == i,
                forall|k: int| 0 <= k < i ==> plans(#[trigger] children@[k], content[k], now as int),
                self@.to_multiset() == old(self)@.to_multiset().add(put_off_all(children@, content)),
            decreases bundle.content.len() - i,
        {
            let ghost before = children@;
            let ghost waiting = self@.to_multiset();
            proof {
                vstd::std_specs::vec::axiom_vec_index_decreases(bundle.content, i as int);
                assert(decreases_to!(bundle => bundle.content));
                assert(content[i as int] == bundle.content@[i as int]@);
            }
            let child = self.plan_packet(&bundle.content[i], now);
            children.push(child);
            proof {
                assert(children@.drop_last() =~= before);
                assert(self@.to_multiset() =~= old(self)@.to_multiset().add(put_off_all(children@, content)));
            }
            i += 1;
        }
        Results::OscBundle(children)
    }

    /// Takes `packet` apart at the instant `now`, in nanoseconds since 1970:
    /// its messages and the bundles that are due are planned in depth-first
    /// order; each bundle that is not due is put off under a fresh name.
    pub fn plan_packet(&mut self, packet: &Packet, now: i128) -> (plan: Results<OscMessage>)
        ensures
            plans(plan, packet@, now as int),
            final(self)@.to_multiset() == old(self)@.to_multiset().add(put_off(plan, packet@)),
        decreases packet,
    {
        match packet {
            Packet::Message(m) => {
                proof {
                    assert(self@.to_multiset() =~= self@.to_multiset().add(Multiset::empty()));
                }
                Results::OscMessage(m.duplicate())
            },
            Packet::Bundle(b) => {
                proof {
                    lemma_bundle_model(*b);
                    assert(packet->Bundle_0 == *b);
                    assert(decreases_to!(packet => packet->Bundle_0));
                }
                if due(b.timetag, now) {
                    self.apply_bundle(b, now)
                } else {
                    let id = self.buffer.push(release_of(b.timetag), b.duplicate());
                    proof {
                        assert(self@.to_multiset() =~= old(self)@.to_multiset().add(
                            Multiset::singleton(DelayedModel { release: release_time(b.timetag), id, bundle: b@ }),
                        ));
                    }
                    Results::NotYetApplied(id)
                }
            },
        }
    }

    /// Decodes the first packet in `bytes` and takes it apart at the instant
    /// `now`. Bytes that do not decode change nothing.
    pub fn plan_raw(&mut self, bytes: &[u8], now: i128) -> (outcome: Result<RawPlan, DecodeFailure>)
        ensures
            match outcome {
                Ok(p) => {
                    &&& wire_decoded(bytes@) == Ok::<DecodedModel, DecodeError>(
                        DecodedModel { packet: p.packet@, rest_len: p.rest_len as int },
                    )
                    &&& p.rest_len <= bytes@.len()
                    &&& plans(p.plan, p.packet@, now as int)
                    &&& final(self)@.to_multiset() == old(self)@.to_multiset().add(put_off(p.plan, p.packet@))
                },
                Err(e) => wire_decoded(bytes@) == Err::<DecodedModel, DecodeError>(e.kind) && final(self)@ == old(self)@,
            },
    {
        match decode(bytes) {
            Ok(decoded) => {
                let plan = self.plan_packet(&decoded.packet, now);
                Ok(RawPlan { packet: decoded.packet, plan, rest_len: decoded.rest_len })
            },
            Err(e) => Err(e),
        }
    }

    /// Takes out the bundles that are due at the instant `now` and applies
    /// them, earliest first.
    pub fn tick(&mut self, now: i128) -> (released: Vec<Released<OscMessage>>)
        ensures
            latest_first(old(self)@),
            released@.len() == old(self)@.len() - future_count(old(self)@, now as int),
            forall|i: int|
                0 <= i < released@.len() ==> {
                    let ready = tail_reversed(old(self)@, future_count(old(self)@, now as int) as int);
                    &&& (#[trigger] released@[i]).id == ready[i].id
                    &&& ready[i].release <= now
                    &&& applies(released@[i].plan, ready[i].bundle, now as int)
                },
            final(self)@.to_multiset() == old(self)@.take(future_count(old(self)@, now as int) as int).to_multiset().add(
                put_off_released(
                    released@,
                    tail_reversed(old(self)@, future_count(old(self)@, now as int) as int),
                ),
            ),
    {
        let ghost k = future_count(old(self)@, now as int) as int;
        let ghost ready_models = tail_reversed(old(self)@, k);
        let ready = self.buffer.drain_ready(now);
        let ghost kept = self@.to_multiset();
        let mut released: Vec<Released<OscMessage>> = Vec::new();
        let mut i: usize = 0;
        proof {
            assert(self@.to_multiset() =~= kept.add(put_off_released(released@, ready_models)));
        }
        while i < ready.len()
            invariant
                    i <= ready.len(),
                released@.len() == i,
                ready@.len() == ready_models.len(),
                forall|j: int| 0 <= j < ready@.len() ==> (#[trigger] ready@[j])@ == ready_models[j],
                forall|j: int| 0 <= j < ready@.len() ==> (#[trigger] ready@[j]).key <= now,
                forall|j: int|
                    0 <= j < i ==> {
                        &&& (#[trigger] released@[j]).id == ready_models[j].id
                        &&& ready_models[j].release <= now
                        &&& applies(released@[j].plan, ready_models[j].bundle, now as int)
                    },
                self@.to_multiset() == kept.add(put_off_released(released@, ready_models)),
            decreases ready.len() - i,
        {
            let ghost before = released@;
            let plan = self.apply_bundle(&ready[i].value, now);
            released.push(Released { id: ready[i].uuid, plan });
            proof {
                assert(ready@[i as int]@ == ready_models[i as int]);
                assert(released@.drop_last() =~= before);
                assert(self@.to_multiset() =~= kept.add(put_off_released(released@, ready_models)));
            }
            i += 1;
        }
        released
    }
}

/// What each of `messages` holds, in order.
pub open spec fn message_models(messages: Seq<OscMessage>) -> Seq<MessageModel> {
    Seq::new(messages.len(), |i: int| messages[i]@)
}

/// The messages of `packet` that are applied at `now`, in depth-first order:
/// those that no bundle which is not yet due holds.
pub open spec fn applied_messages(packet: PacketModel, now: int) -> Seq<MessageModel>
    decreases packet, 0nat,
{
    match packet {
        PacketModel::Message(m) => seq![m],
        PacketModel::Bundle(b) => if is_due(b.timetag, now) {
            applied_messages_of(b.content, now)
        } else {
            Seq::empty()
        },
    }
}

/// The messages of each of `content` that are applied at `now`, one packet
/// after another.
pub open spec fn applied_messages_of(content: Seq<PacketModel>, now: int) -> Seq<MessageModel>
    decreases content, 1nat,
{
    if content.len() == 0 {
        Seq::empty()
    } else {
        applied_messages_of(content.drop_last(), now) + applied_messages(content.last(), now)
    }
}

/// Whether every bundle in `packet`, at any depth, is due at `now`.
pub open spec fn all_due(packet: PacketModel, now: int) -> bool
    decreases packet,
{
    match packet {
        PacketModel::Message(_) => true,
        PacketModel::Bundle(b) => is_due(b.timetag, now) && forall|i: int|
            0 <= i < b.content.len() ==> all_due(#[trigger] b.content[i], now),
    }
}

/// The applied messages of a plan are the messages of the packet that are
/// applied at that instant, in depth-first order.
pub proof fn lemma_plan_applies_in_order(plan: Results<OscMessage>, packet: PacketModel, now: int)
    requires
        plans(plan, packet, now),
    ensures
        message_models(flattened(plan)) == applied_messages(packet, now),
    decreases plan, 0nat,
{
    match packet {
        PacketModel::Message(m) => {
            assert(message_models(flattened(plan)) =~= seq![m]);
        },
        PacketModel::Bundle(b) => {
            if is_due(b.timetag, now) {
                assert(decreases_to!(plan => plan->OscBundle_0));
                lemma_children_apply_in_order(plan->OscBundle_0@, b.content, now);
            } else {
                assert(message_models(flattened(plan)) =~= Seq::<MessageModel>::empty());
            }
        },
    }
}

/// The applied messages of the plans of a bundle's packets are the messages
/// of those packets that are applied at that instant, packet after packet.
pub proof fn lemma_children_apply_in_order(children: Seq<Results<OscMessage>>, content: Seq<PacketModel>, now: int)
    requires
        children.len() == content.len(),
        forall|i: int| 0 <= i < children.len() ==> plans(#[trigger] children[i], content[i], now),
    ensures
        message_models(flattened_all(children)) == applied_messages_of(content, now),
    decreases children, 1nat,
{
    if children.len() == 0 {
        assert(message_models(flattened_all(children)) =~= Seq::<MessageModel>::empty());
    } else {
        let front = children.drop_last();
        let front_content = content.drop_last();
        assert forall|i: int| 0 <= i < front.len() implies plans(#[trigger] front[i], front_content[i], now) by {
            assert(front[i] == children[i]);
        }
        lemma_children_apply_in_order(front, front_content, now);
        lemma_plan_applies_in_order(children.last(), content.last(), now);
        assert(message_models(flattened_all(children)) =~= message_models(flattened_all(front)) + message_models(
            flattened(children.last()),
        ));
    }
}

/// Where every bundle of a packet is due, all of its messages are applied.
pub proof fn lemma_all_due_applies_all(packet: PacketModel, now: int)
    requires
        all_due(packet, now),
    ensures
        applied_messages(packet, now) == all_messages(packet),
    decreases packet, 0nat,
{
    match packet {
        PacketModel::Message(_) => {},
        PacketModel::Bundle(b) => {
            lemma_all_due_content(b.content, now);
        },
    }
}

/// Where every bundle of each of `content` is due, all of their messages are
/// applied.
pub proof fn lemma_all_due_content(content: Seq<PacketModel>, now: int)
    requires
        forall|i: int| 0 <= i < content.len() ==> all_due(#[trigger] content[i], now),
    ensures
        applied_messages_of(content, now) == all_messages_of(content),
    decreases content, 1nat,
{
    if content.len() > 0 {
        let front = content.drop_last();
        assert forall|i: int| 0 <= i < front.len() implies all_due(#[trigger] front[i], now) by {
            assert(front[i] == content[i]);
        }
        lemma_all_due_content(front, now);
        lemma_all_due_applies_all(content.last(), now);
    }
}

/// A bundle whose time tag asks for it at once is applied whatever the
/// instant: its plan holds the messages of its packets that are applied, in
/// depth-first order, and puts nothing off but what its packets put off.
pub proof fn lemma_immediate_bundle(plan: Results<OscMessage>, bundle: BundleModel, now: int)
    requires
        bundle.timetag.is_immediate(),
        plans(plan, PacketModel::Bundle(bundle), now),
    ensures
        plan is OscBundle,
        applies(plan, bundle, now),
        message_models(flattened(plan)) == applied_messages_of(bundle.content, now),
{
    lemma_plan_applies_in_order(plan, PacketModel::Bundle(bundle), now);
}

/// A bundle whose time is still to come is put off: its plan is the name
/// under which it waits, and it waits with the release time of its tag.
pub proof fn lemma_future_bundle(plan: Results<OscMessage>, bundle: BundleModel, now: int)
    requires
        !is_due(bundle.timetag, now),
        plans(plan, PacketModel::Bundle(bundle), now),
    ensures
        plan is NotYetApplied,
        flattened(plan) == Seq::<OscMessage>::empty(),
        put_off(plan, PacketModel::Bundle(bundle)) == Multiset::singleton(
            DelayedModel { release: release_time(bundle.timetag), id: plan->NotYetApplied_0, bundle },
        ),
{
}

/// Of bundles that wait in order, one that is due at `later` is among those
/// that a tick at `later` releases, as often as it waited, and waits no more.
pub proof fn lemma_due_entry_is_released(waiting: Seq<DelayedModel>, entry: DelayedModel, later: int)
    requires
        latest_first(waiting),
        entry.release <= later,
    ensures
        tail_reversed(waiting, future_count(waiting, later) as int).to_multiset().count(entry)
            == waiting.to_multiset().count(entry),
        !waiting.take(future_count(waiting, later) as int).contains(entry),
{
    let k = future_count(waiting, later) as int;
    crate::buffer::lemma_future_count(waiting, later);
    let kept = waiting.take(k);
    let gone = waiting.skip(k);
    assert(!kept.contains(entry)) by {
        if kept.contains(entry) {
            let i = choose|i: int| 0 <= i < kept.len() && kept[i] == entry;
            assert(kept[i] == waiting[i]);
        }
    }
    assert(waiting =~= kept + gone);
    vstd::seq_lib::lemma_multiset_commutative(kept, gone);
    kept.to_multiset_ensures();
    gone.lemma_reverse_to_multiset();
    assert(tail_reversed(waiting, k) =~= gone.reverse());
}

/// Whether every bundle in `waiting` is due after `now` and has a time tag
/// that does not ask for it at once.
pub open spec fn only_future(waiting: Multiset<DelayedModel>, now: int) -> bool {
    forall|e: DelayedModel| #[trigger] waiting.count(e) > 0 ==> e.release > now && !e.bundle.timetag.is_immediate()
}

/// Only bundles whose time is still to come are put off.
pub proof fn lemma_put_off_is_future(plan: Results<OscMessage>, packet: PacketModel, now: int)
    requires
        plans(plan, packet, now),
    ensures
        only_future(put_off(plan, packet), now),
    decreases plan,
{
    match packet {
        PacketModel::Message(_) => {},
        PacketModel::Bundle(b) => {
            if is_due(b.timetag, now) {
                let children = plan->OscBundle_0@;
                assert forall|i: int| 0 <= i < children.len() implies only_future(
                    #[trigger] put_off(children[i], b.content[i]),
                    now,
                ) by {
                    assert(plans(children[i], b.content[i], now));
                    assert(decreases_to!(plan => plan->OscBundle_0));
                    vstd::std_specs::vec::axiom_vec_index_decreases(plan->OscBundle_0, i);
                    lemma_put_off_is_future(children[i], b.content[i], now);
                }
                lemma_put_off_all_is_future(children, b.content, now);
            }
        },
    }
}

/// Plans of which each puts off only bundles whose time is still to come put
/// off only such bundles together.
pub proof fn lemma_put_off_all_is_future(children: Seq<Results<OscMessage>>, content: Seq<PacketModel>, now: int)
    requires
        forall|i: int| 0 <= i < children.len() ==> only_future(#[trigger] put_off(children[i], content[i]), now),
    ensures
        only_future(put_off_all(children, content), now),
    decreases children.len(),
{
    if children.len() > 0 {
        let front = children.drop_last();
        assert forall|i: int| 0 <= i < front.len() implies only_future(
            #[trigger] put_off(front[i], content[i]),
            now,
        ) by {
            assert(front[i] == children[i]);
            assert(only_future(put_off(children[i], content[i]), now));
        }
        lemma_put_off_all_is_future(front, content, now);
        let n = children.len() - 1;
        assert(children.last() == children[n]);
        assert(only_future(put_off(children[n], content[n]), now));
    }
}

} // verus!
