//! Waiting for the echoes of the parameter writes of a key.

use vstd::prelude::*;
use crate::address::{parameter_address, parameter_prefix};
use crate::packet::{arg_models, ArgModel, MessageModel, OscArg, OscMessage};
use crate::unlock::{write_models, ParameterWrite, WriteModel};

verus! {

/// Whether `bits` is the pattern of a NaN in IEEE 754 single precision.
pub open spec fn is_nan_bits(bits: u32) -> bool {
    (bits & 0x7f80_0000) == 0x7f80_0000 && (bits & 0x007f_ffff) != 0
}

/// Whether two single-precision numbers, given by their bit patterns, compare
/// equal in IEEE 754: neither is a NaN, and the patterns are the same or both
/// write a zero of either sign.
pub open spec fn float_bits_equal(a: u32, b: u32) -> bool {
    !is_nan_bits(a) && !is_nan_bits(b) && (a == b || ((a | b) & 0x7fff_ffff) == 0)
}

/// Whether two single-precision numbers, given by their bit patterns, compare
/// equal in IEEE 754.
pub fn float_bits_eq(a: u32, b: u32) -> (same: bool)
    ensures
        same == float_bits_equal(a, b),
{
    let a_nan = (a & 0x7f80_0000) == 0x7f80_0000 && (a & 0x007f_ffff) != 0;
    let b_nan = (b & 0x7f80_0000) == 0x7f80_0000 && (b & 0x007f_ffff) != 0;
    !a_nan && !b_nan && (a == b || ((a | b) & 0x7fff_ffff) == 0)
}

/// How an echo differs from the write that it answers.
#[derive(Clone, Copy, Debug, PartialEq, Eq, Structural)]
pub enum Deviation {
    /// The echo carries no value.
    NoValue,
    /// The value is no single-precision number.
    NotFloat,
    /// The value is another number than the one written.
    OtherValue,
}

/// How an echo with the values `args` differs from the number `expected`, if
/// it does. Only the first value counts: it must be there, be a
/// single-precision number and equal the number written. What follows it is
/// not looked at.
pub open spec fn deviation_of(expected: u32, args: Seq<ArgModel>) -> Option<Deviation> {
    if args.len() == 0 {
        Some(Deviation::NoValue)
    } else {
        match args[0] {
            ArgModel::Float(bits) => if float_bits_equal(bits, expected) {
                None
            } else {
                Some(Deviation::OtherValue)
            },
            _ => Some(Deviation::NotFloat),
        }
    }
}

/// How an echo with the values `args` differs from the number `expected`, if
/// it does.
pub fn deviation(expected: u32, args: &Vec<OscArg>) -> (d: Option<Deviation>)
    ensures
        d == deviation_of(expected, arg_models(args@)),
{
    if args.len() == 0 {
        Some(Deviation::NoValue)
    } else {
        match &args[0] {
            OscArg::Float(bits) => if float_bits_eq(*bits, expected) {
                None
            } else {
                Some(Deviation::OtherValue)
            },
            _ => Some(Deviation::NotFloat),
        }
    }
}

/// One write whose echo is awaited: the address and the number written.
#[derive(Clone, Debug)]
pub struct Expected {
    pub address: String,
    pub bits: u32,
}

/// The mapping from address to number that a list of awaited writes makes;
/// a later write to an address replaces an earlier one.
pub open spec fn map_of(pending: Seq<Expected>) -> Map<Seq<char>, u32>
    decreases pending.len(),
{
    if pending.len() == 0 {
        Map::empty()
    } else {
        map_of(pending.drop_last()).insert(pending.last().address@, pending.last().bits)
    }
}

/// No address occurs twice in `pending`.
pub open spec fn distinct(pending: Seq<Expected>) -> bool {
    forall|i: int, j: int| 0 <= i < j < pending.len() ==> pending[i].address@ != pending[j].address@
}

/// The mapping holds an address just when the list does, with its number.
pub proof fn lemma_map_of_index(pending: Seq<Expected>)
    requires
        distinct(pending),
    ensures
        forall|i: int| 0 <= i < pending.len() ==> map_of(pending).contains_pair(#[trigger] pending[i].address@, pending[i].bits),
        forall|a: Seq<char>| #[trigger] map_of(pending).dom().contains(a) ==> exists|i: int| 0 <= i < pending.len() && pending[i].address@ == a,
        map_of(pending).dom().finite(),
        map_of(pending).dom().len() == pending.len(),
    decreases pending.len(),
{
    if pending.len() > 0 {
        let before = pending.drop_last();
        let last = pending.last();
        assert(distinct(before)) by {
            assert forall|i: int, j: int| 0 <= i < j < before.len() implies before[i].address@ != before[j].address@ by {
                assert(before[i] == pending[i] && before[j] == pending[j]);
            }
        }
        lemma_map_of_index(before);
        assert(!map_of(before).dom().contains(last.address@)) by {
            if map_of(before).dom().contains(last.address@) {
                let i = choose|i: int| 0 <= i < before.len() && before[i].address@ == last.address@;
                assert(pending[i] == before[i]);
                assert(pending[pending.len() - 1] == last);
            }
        }
        assert forall|i: int| 0 <= i < pending.len() implies map_of(pending).contains_pair(#[trigger] pending[i].address@, pending[i].bits) by {
            if i < before.len() {
                assert(pending[i] == before[i]);
                assert(map_of(before).contains_pair(before[i].address@, before[i].bits));
            }
        }
        assert forall|a: Seq<char>| #[trigger] map_of(pending).dom().contains(a) implies exists|i: int| 0 <= i < pending.len() && pending[i].address@ == a by {
            if a == last.address@ {
                assert(pending[pending.len() - 1].address@ == a);
            } else {
                assert(map_of(before).dom().contains(a));
                let i = choose|i: int| 0 <= i < before.len() && before[i].address@ == a;
                assert(pending[i] == before[i]);
            }
        }
        assert(map_of(pending).dom() =~= map_of(before).dom().insert(last.address@));
    } else {
        assert(map_of(pending).dom() =~= Set::<Seq<char>>::empty());
    }
}

/// Taking one awaited write out of the list takes its address out of the mapping.
pub proof fn lemma_map_of_remove(pending: Seq<Expected>, at: int)
    requires
        distinct(pending),
        0 <= at < pending.len(),
    ensures
        distinct(pending.remove(at)),
        map_of(pending.remove(at)) == map_of(pending).remove(pending[at].address@),
    decreases pending.len(),
{
    let rest = pending.remove(at);
    assert(distinct(rest)) by {
        assert forall|i: int, j: int| 0 <= i < j < rest.len() implies rest[i].address@ != rest[j].address@ by {
            let pi = if i < at { i } else { i + 1 };
            let pj = if j < at { j } else { j + 1 };
            assert(rest[i] == pending[pi] && rest[j] == pending[pj]);
        }
    }
    let before = pending.drop_last();
    let last = pending.last();
    assert(distinct(before)) by {
        assert forall|i: int, j: int| 0 <= i < j < before.len() implies before[i].address@ != before[j].address@ by {
            assert(before[i] == pending[i] && before[j] == pending[j]);
        }
    }
    if at == pending.len() - 1 {
        assert(rest =~= before);
        lemma_map_of_index(before);
        assert(!map_of(before).dom().contains(last.address@)) by {
            if map_of(before).dom().contains(last.address@) {
                let i = choose|i: int| 0 <= i < before.len() && before[i].address@ == last.address@;
                assert(pending[i] == before[i]);
                assert(pending[pending.len() - 1] == last);
            }
        }
        assert(map_of(before) =~= map_of(pending).remove(last.address@));
    } else {
        lemma_map_of_remove(before, at);
        assert(rest.drop_last() =~= before.remove(at));
        assert(rest.last() == last);
        assert(before[at] == pending[at]);
        assert(pending[at].address@ != last.address@) by {
            assert(pending[pending.len() - 1] == last);
        }
        assert(map_of(rest) =~= map_of(pending).remove(pending[at].address@));
    }
}

/// Giving one awaited write another number stores that number under its address.
pub proof fn lemma_map_of_update(pending: Seq<Expected>, at: int, entry: Expected)
    requires
        distinct(pending),
        0 <= at < pending.len(),
        entry.address@ == pending[at].address@,
    ensures
        distinct(pending.update(at, entry)),
        map_of(pending.update(at, entry)) == map_of(pending).insert(entry.address@, entry.bits),
    decreases pending.len(),
{
    let next = pending.update(at, entry);
    assert(distinct(next)) by {
        assert forall|i: int, j: int| 0 <= i < j < next.len() implies next[i].address@ != next[j].address@ by {
            assert(next[i].address@ == pending[i].address@);
            assert(next[j].address@ == pending[j].address@);
        }
    }
    let before = pending.drop_last();
    let last = pending.last();
    if at == pending.len() - 1 {
        assert(next.drop_last() =~= before);
        assert(next.last() == entry);
        assert(map_of(next) =~= map_of(pending).insert(entry.address@, entry.bits));
    } else {
        assert(distinct(before)) by {
            assert forall|i: int, j: int| 0 <= i < j < before.len() implies before[i].address@ != before[j].address@ by {
                assert(before[i] == pending[i] && before[j] == pending[j]);
            }
        }
        lemma_map_of_update(before, at, entry);
        assert(next.drop_last() =~= before.update(at, entry));
        assert(next.last() == last);
        assert(pending[at].address@ != last.address@) by {
            assert(pending[pending.len() - 1] == last);
        }
        assert(map_of(next) =~= map_of(pending).insert(entry.address@, entry.bits));
    }
}

/// The place of the write to `address` in `pending`, if it holds one.
fn position(pending: &Vec<Expected>, address: &String) -> (at: Option<usize>)
    ensures
        match at {
            Some(i) => i < pending@.len() && pending@[i as int].address@ == address@,
            None => forall|k: int| 0 <= k < pending@.len() ==> pending@[k].address@ != address@,
        },
{
    let mut i: usize = 0;
    while i < pending.len()
        invariant
            i <= pending@.len(),
            forall|k: int| 0 <= k < i ==> pending@[k].address@ != address@,
        decreases pending.len() - i,
    {
        if pending[i].address == *address {
            return Some(i);
        }
        i += 1;
    }
    None
}

/// The echoes to await after `writes` were sent: for each address the number
/// last written to it.
pub open spec fn expected_echoes(writes: Seq<WriteModel>) -> Map<Seq<char>, u32>
    decreases writes.len(),
{
    if writes.len() == 0 {
        Map::empty()
    } else {
        expected_echoes(writes.drop_last()).insert(parameter_prefix() + writes.last().name, writes.last().bits)
    }
}

/// What an incoming message meant to the wait for echoes.
#[derive(Clone, Copy, Debug, PartialEq, Eq, Structural)]
pub enum EchoOutcome {
    /// No echo is awaited at the message's address; nothing changed.
    NotAwaited,
    /// The echo answered its write as written, and other echoes are still awaited.
    Matched,
    /// The echo answered its write as written and was the last one awaited:
    /// the key has been applied, and the wait is over.
    Completed,
    /// The echo differed from its write: the wait is given up. `unanswered`
    /// counts the other writes that no echo had answered yet.
    Abandoned { deviation: Deviation, unanswered: usize },
}

/// What the message `message` means to a wait for the echoes `awaited`.
pub open spec fn outcome_of(awaited: Map<Seq<char>, u32>, message: MessageModel) -> EchoOutcome {
    if !awaited.dom().contains(message.addr) {
        EchoOutcome::NotAwaited
    } else {
        match deviation_of(awaited[message.addr], message.args) {
            Some(deviation) => EchoOutcome::Abandoned {
                deviation,
                unanswered: awaited.remove(message.addr).dom().len() as usize,
            },
            None => if awaited.remove(message.addr).dom().len() == 0 {
                EchoOutcome::Completed
            } else {
                EchoOutcome::Matched
            },
        }
    }
}

/// The echoes still awaited after `message` came in, of the echoes `awaited`
/// before: an echo as written is awaited no longer, and one that differs ends
/// the wait for all.
pub open spec fn awaited_after(awaited: Map<Seq<char>, u32>, message: MessageModel) -> Map<Seq<char>, u32> {
    if !awaited.dom().contains(message.addr) {
        awaited
    } else if deviation_of(awaited[message.addr], message.args) is Some {
        Map::empty()
    } else {
        awaited.remove(message.addr)
    }
}

/// The wait for the echoes of one key. It holds the writes that no echo has
/// answered yet, in a list in which no address occurs twice, and stands for
/// the mapping from each address to the number written there; with no write
/// left it is idle.
#[derive(Debug)]
pub struct EchoTracker {
    pending: Vec<Expected>,
}

impl View for EchoTracker {
    type V = Map<Seq<char>, u32>;

    closed spec fn view(&self) -> Map<Seq<char>, u32> {
        map_of(self.pending@)
    }
}

impl EchoTracker {
    #[verifier::type_invariant]
    spec fn distinct_addresses(self) -> bool {
        distinct(self.pending@)
    }

    /// A wait for nothing.
    pub fn new() -> (tracker: Self)
        ensures
            tracker@ == Map::<Seq<char>, u32>::empty(),
    {
        EchoTracker { pending: Vec::new() }
    }

    /// The number of writes that no echo has answered yet.
    pub fn unanswered(&self) -> (n: usize)
        ensures
            self@.dom().finite(),
            n == self@.dom().len(),
    {
        proof {
            use_type_invariant(self);
            lemma_map_of_index(self.pending@);
        }
        self.pending.len()
    }

    /// Whether no echo is awaited.
    pub fn is_idle(&self) -> (idle: bool)
        ensures
            idle == (self@ == Map::<Seq<char>, u32>::empty()),
    {
        proof {
            use_type_invariant(self);
            lemma_map_of_index(self.pending@);
            if self.pending@.len() == 0 {
                assert(self@ =~= Map::<Seq<char>, u32>::empty());
            } else {
                assert(self@.dom().contains(self.pending@[0].address@));
            }
        }
        self.pending.len() == 0
    }

    /// The wait for the echoes of `writes`, which have just been sent.
    pub fn begin(writes: &Vec<ParameterWrite>) -> (tracker: Self)
        ensures
            tracker@ == expected_echoes(write_models(writes@)),
    {
        let mut pending: Vec<Expected> = Vec::new();
        let mut i: usize = 0;
        while i < writes.len()
            invariant
                i <= writes.len(),
                distinct(pending@),
                map_of(pending@) == expected_echoes(write_models(writes@).take(i as int)),
            decreases writes.len() - i,
        {
            let address = parameter_address(writes[i].name.as_str());
            let entry = Expected { address, bits: writes[i].bits };
            let ghost models = write_models(writes@);
            proof {
                assert(models.take(i + 1).drop_last() =~= models.take(i as int));
                assert(models.take(i + 1).last() == writes@[i as int]@);
                lemma_map_of_index(pending@);
            }
            let at = position(&pending, &entry.address);
            match at {
                Some(j) => {
                    proof {
                        lemma_map_of_update(pending@, j as int, entry);
                    }
                    pending.set(j, entry);
                },
                None => {
                    let ghost before = pending@;
                    pending.push(entry);
                    proof {
                        assert(pending@.drop_last() =~= before);
                        assert forall|a: int, b: int| 0 <= a < b < pending@.len() implies pending@[a].address@
                            != pending@[b].address@ by {
                            assert(pending@[a] == before[a]);
                            if b < before.len() {
                                assert(pending@[b] == before[b]);
                            }
                        }
                    }
                },
            }
            i += 1;
        }
        proof {
            assert(write_models(writes@).take(writes@.len() as int) =~= write_models(writes@));
        }
        EchoTracker { pending }
    }

    /// Takes in a message. Where an echo is awaited at its address, the echo
    /// is awaited no longer; where it differs from the write, the whole wait
    /// is given up.
    pub fn observe(&mut self, message: &OscMessage) -> (outcome: EchoOutcome)
        ensures
            outcome == outcome_of(old(self)@, message@),
            final(self)@ == awaited_after(old(self)@, message@),
    {
        let mut taken = EchoTracker { pending: Vec::new() };
        core::mem::swap(self, &mut taken);
        proof {
            use_type_invariant(&taken);
            lemma_map_of_index(taken.pending@);
        }
        let mut pending = taken.pending;
        match position(&pending, &message.addr) {
            None => {
                *self = EchoTracker { pending };
                EchoOutcome::NotAwaited
            },
            Some(at) => {
                let ghost before = pending@;
                proof {
                    lemma_map_of_remove(before, at as int);
                    lemma_map_of_index(before.remove(at as int));
                }
                let entry = pending.remove(at);
                match deviation(entry.bits, &message.args) {
                    Some(deviation) => EchoOutcome::Abandoned { deviation, unanswered: pending.len() },
                    None => {
                        if pending.len() == 0 {
                            proof {
                                assert(map_of(pending@) =~= Map::<Seq<char>, u32>::empty());
                            }
                            EchoOutcome::Completed
                        } else {
                            *self = EchoTracker { pending };
                            EchoOutcome::Matched
                        }
                    },
                }
            },
        }
    }
}

/// The echoes still awaited before the message at place `i` of `echoes` comes
/// in, when the wait began with `awaited` and took in the messages before it.
pub open spec fn awaited_before(awaited: Map<Seq<char>, u32>, echoes: Seq<MessageModel>, i: nat) -> Map<Seq<char>, u32>
    decreases i,
{
    if i == 0 {
        awaited
    } else {
        awaited_after(awaited_before(awaited, echoes, (i - 1) as nat), echoes[i - 1])
    }
}

/// `echoes` answer every write of `awaited` once and as written, in any order.
pub open spec fn answers_all(awaited: Map<Seq<char>, u32>, echoes: Seq<MessageModel>) -> bool {
    &&& awaited.dom().finite()
    &&& echoes.len() == awaited.dom().len()
    &&& forall|i: int|
        0 <= i < echoes.len() ==> awaited.dom().contains(#[trigger] echoes[i].addr) && deviation_of(
            awaited[echoes[i].addr],
            echoes[i].args,
        ) is None
    &&& forall|i: int, j: int| 0 <= i < j < echoes.len() ==> echoes[i].addr != echoes[j].addr
}

proof fn lemma_awaited_before(awaited: Map<Seq<char>, u32>, echoes: Seq<MessageModel>, i: nat)
    requires
        answers_all(awaited, echoes),
        i <= echoes.len(),
    ensures
        awaited_before(awaited, echoes, i).dom().finite(),
        awaited_before(awaited, echoes, i).dom().len() == echoes.len() - i,
        forall|a: Seq<char>| #[trigger]
            awaited_before(awaited, echoes, i).dom().contains(a) <==> awaited.dom().contains(a) && forall|j: int|
                0 <= j < i ==> echoes[j].addr != a,
        forall|a: Seq<char>| #[trigger]
            awaited_before(awaited, echoes, i).dom().contains(a) ==> awaited_before(awaited, echoes, i)[a]
                == awaited[a],
    decreases i,
{
    if i > 0 {
        let prev = awaited_before(awaited, echoes, (i - 1) as nat);
        let m = echoes[i - 1];
        lemma_awaited_before(awaited, echoes, (i - 1) as nat);
        assert(awaited.dom().contains(m.addr));
        assert(prev.dom().contains(m.addr));
        assert(prev[m.addr] == awaited[m.addr]);
        let next = awaited_before(awaited, echoes, i);
        assert(next == prev.remove(m.addr));
        assert(next.dom() =~= prev.dom().remove(m.addr));
        assert forall|a: Seq<char>| #[trigger]
            next.dom().contains(a) <==> awaited.dom().contains(a) && forall|j: int|
                0 <= j < i ==> echoes[j].addr != a by {
            if next.dom().contains(a) {
                assert(prev.dom().contains(a));
            }
            if awaited.dom().contains(a) && (forall|j: int| 0 <= j < i ==> echoes[j].addr != a) {
                assert(forall|j: int| 0 <= j < i - 1 ==> echoes[j].addr != a);
                assert(prev.dom().contains(a));
                assert(echoes[i - 1].addr != a);
            }
        }
    }
}

proof fn lemma_echo_step(awaited: Map<Seq<char>, u32>, echoes: Seq<MessageModel>, i: int)
    requires
        answers_all(awaited, echoes),
        0 <= i < echoes.len(),
    ensures
        awaited_before(awaited, echoes, i as nat).dom().contains(echoes[i].addr),
        deviation_of(awaited_before(awaited, echoes, i as nat)[echoes[i].addr], echoes[i].args) is None,
        awaited_before(awaited, echoes, i as nat).remove(echoes[i].addr).dom().len() == echoes.len() - i - 1,
{
    let before = awaited_before(awaited, echoes, i as nat);
    lemma_awaited_before(awaited, echoes, i as nat);
    lemma_awaited_before(awaited, echoes, (i + 1) as nat);
    assert(awaited.dom().contains(echoes[i].addr));
    assert(before.dom().contains(echoes[i].addr));
    assert(awaited_before(awaited, echoes, (i + 1) as nat) == before.remove(echoes[i].addr));
}

/// Where every write of a key is answered once and as written, in whatever
/// order the echoes come, each echo but the last is taken as a match, the last
/// one completes the wait, nothing is given up, and no echo is awaited after.
pub proof fn lemma_all_echoes_complete(awaited: Map<Seq<char>, u32>, echoes: Seq<MessageModel>)
    requires
        answers_all(awaited, echoes),
        echoes.len() > 0,
    ensures
        forall|i: int|
            0 <= i < echoes.len() - 1 ==> outcome_of(
                #[trigger] awaited_before(awaited, echoes, i as nat),
                echoes[i],
            ) == EchoOutcome::Matched,
        outcome_of(
            awaited_before(awaited, echoes, (echoes.len() - 1) as nat),
            echoes[echoes.len() - 1],
        ) == EchoOutcome::Completed,
        awaited_before(awaited, echoes, echoes.len()) == Map::<Seq<char>, u32>::empty(),
{
    let n = echoes.len();
    assert forall|i: int| 0 <= i < n - 1 implies outcome_of(
        #[trigger] awaited_before(awaited, echoes, i as nat),
        echoes[i],
    ) == EchoOutcome::Matched by {
        lemma_echo_step(awaited, echoes, i);
    }
    lemma_echo_step(awaited, echoes, n - 1);
    lemma_awaited_before(awaited, echoes, n);
    assert(awaited_before(awaited, echoes, n).dom() =~= Set::<Seq<char>>::empty());
    assert(awaited_before(awaited, echoes, n) =~= Map::<Seq<char>, u32>::empty());
}

} // verus!
