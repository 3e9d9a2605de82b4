//! What the avatar key protocol does with each message that comes in.

use vstd::prelude::*;
use crate::address::{address_kind, classify, AddressKind};
use crate::config::OscCreateData;
use crate::echo::{awaited_after, expected_echoes, outcome_of, EchoOutcome, EchoTracker};
use crate::handler::MessageHandler;
use crate::packet::{arg_models, packet_models, ArgModel, MessageModel, OscArg, OscMessage, Packet};
use crate::unlock::{unlock_packets, unlock_plan, write_models, ParameterWrite};

verus! {

/// Why a change of avatar names no avatar.
#[derive(Clone, Copy, Debug, PartialEq, Eq, Structural)]
pub enum ChangeError {
    /// The message has no argument.
    NoId,
    /// The message has an argument that is no string, or more than one argument.
    Unrecognized,
}

/// The avatar that a change of avatar names: the message's one argument, which
/// must be a string.
pub open spec fn avatar_id_of(args: Seq<ArgModel>) -> Result<Seq<char>, ChangeError> {
    if args.len() == 0 {
        Err(ChangeError::NoId)
    } else if args.len() == 1 && args[0] is String {
        Ok(args[0]->String_0)
    } else {
        Err(ChangeError::Unrecognized)
    }
}

/// The avatar that a change of avatar with the arguments `args` names.
pub fn avatar_id(args: &Vec<OscArg>) -> (id: Result<String, ChangeError>)
    ensures
        match id {
            Ok(s) => avatar_id_of(arg_models(args@)) == Ok::<Seq<char>, ChangeError>(s@),
            Err(e) => avatar_id_of(arg_models(args@)) == Err::<Seq<char>, ChangeError>(e),
        },
{
    if args.len() == 0 {
        return Err(ChangeError::NoId);
    }
    if args.len() > 1 {
        return Err(ChangeError::Unrecognized);
    }
    match &args[0] {
        OscArg::String(s) => Ok(s.clone()),
        _ => Err(ChangeError::Unrecognized),
    }
}

/// The name of the file that holds the key of the avatar `id`.
pub fn key_file_name(id: &str) -> (name: String)
    ensures
        name@ == id@ + ".key"@,
{
    let name: String = id.to_owned();
    name.concat(".key")
}

/// What to do about a message.
#[derive(Clone, Debug)]
pub enum Reaction {
    /// The message is of no concern.
    Ignored,
    /// The avatar changed: look for the key of the avatar named, and apply it.
    Unlock(String),
    /// The message announces a change of avatar but names none.
    Refused(ChangeError),
    /// The message is a parameter write, taken as an echo.
    Echo(EchoOutcome),
}

/// What a reaction holds.
pub enum ReactionModel {
    Ignored,
    Unlock(Seq<char>),
    Refused(ChangeError),
    Echo(EchoOutcome),
}

impl View for Reaction {
    type V = ReactionModel;

    open spec fn view(&self) -> ReactionModel {
        match self {
            Reaction::Ignored => ReactionModel::Ignored,
            Reaction::Unlock(id) => ReactionModel::Unlock(id@),
            Reaction::Refused(e) => ReactionModel::Refused(*e),
            Reaction::Echo(o) => ReactionModel::Echo(*o),
        }
    }
}

/// What to do about `message` while the echoes `awaited` are awaited.
pub open spec fn reaction_to(awaited: Map<Seq<char>, u32>, message: MessageModel) -> ReactionModel {
    match address_kind(message.addr) {
        AddressKind::AvatarChange => match avatar_id_of(message.args) {
            Ok(id) => ReactionModel::Unlock(id),
            Err(e) => ReactionModel::Refused(e),
        },
        AddressKind::Parameter => ReactionModel::Echo(outcome_of(awaited, message)),
        AddressKind::Other => ReactionModel::Ignored,
    }
}

/// The echoes awaited after `message`: only a parameter write changes them.
pub open spec fn awaited_after_reaction(awaited: Map<Seq<char>, u32>, message: MessageModel) -> Map<Seq<char>, u32> {
    if address_kind(message.addr) == AddressKind::Parameter {
        awaited_after(awaited, message)
    } else {
        awaited
    }
}

/// Takes in a message: a change of avatar asks for an unlock, a parameter
/// write counts as an echo, and anything else is ignored.
pub fn react(tracker: &mut EchoTracker, message: &OscMessage) -> (reaction: Reaction)
    ensures
        reaction@ == reaction_to(old(tracker)@, message@),
        final(tracker)@ == awaited_after_reaction(old(tracker)@, message@),
{
    match classify(message.addr.as_str()) {
        AddressKind::AvatarChange => match avatar_id(&message.args) {
            Ok(id) => Reaction::Unlock(id),
            Err(e) => Reaction::Refused(e),
        },
        AddressKind::Parameter => Reaction::Echo(tracker.observe(message)),
        AddressKind::Other => Reaction::Ignored,
    }
}

/// The time to wait for the echoes of a key, in milliseconds.
pub const DEX_KEY_WAIT_MS: u64 = 1_500;

/// What is to be done to apply a key: the packets to send, and what becomes
/// of the deadlines.
pub struct Started {
    /// The packets that carry the writes of the key.
    pub packets: Vec<Packet>,
    /// Whether an earlier key was still waiting for echoes: its deadline is
    /// to be cancelled.
    pub cancel_previous: bool,
    /// Whether echoes are awaited now: a deadline is to be set for them.
    pub arm_deadline: bool,
}

/// The handler of the avatar key protocol: it asks for an avatar's key when
/// the avatar changes, and checks the echoes of the key's writes.
#[derive(Debug)]
pub struct DexOscHandler {
    path: String,
    dex_use_bundles: bool,
    tracker: EchoTracker,
}

impl DexOscHandler {
    /// The echoes that are awaited.
    pub closed spec fn awaited(&self) -> Map<Seq<char>, u32> {
        self.tracker@
    }

    /// Whether the writes of a key are sent in one bundle.
    pub closed spec fn bundles(&self) -> bool {
        self.dex_use_bundles
    }

    /// The directory of the key files.
    pub closed spec fn directory(&self) -> Seq<char> {
        self.path@
    }

    /// A handler for a session made from `osc_create_data`, with no echo awaited.
    pub fn new(osc_create_data: &OscCreateData) -> (handler: Self)
        ensures
            handler.awaited() == Map::<Seq<char>, u32>::empty(),
            handler.bundles() == osc_create_data.dex_use_bundles,
            handler.directory() == osc_create_data.path@,
    {
        DexOscHandler {
            path: osc_create_data.path.clone(),
            dex_use_bundles: osc_create_data.dex_use_bundles,
            tracker: EchoTracker::new(),
        }
    }

    /// The directory of the key files.
    pub fn key_directory(&self) -> (path: &str)
        ensures
            path@ == self.directory(),
    {
        self.path.as_str()
    }

    /// Whether the writes of a key are sent in one bundle.
    pub fn uses_bundles(&self) -> (yes: bool)
        ensures
            yes == self.bundles(),
    {
        self.dex_use_bundles
    }

    /// The number of writes that no echo has answered yet. At the deadline it
    /// tells whether the key has been applied.
    pub fn unanswered(&self) -> (n: usize)
        ensures
            self.awaited().dom().finite(),
            n == self.awaited().dom().len(),
    {
        self.tracker.unanswered()
    }

    /// Applies a key: its writes are to be sent, singly or in one bundle as
    /// the session is set, and their echoes are awaited from now on, in place
    /// of any that were awaited before.
    pub fn start(&mut self, writes: &Vec<ParameterWrite>) -> (started: Started)
        ensures
            packet_models(started.packets@) == unlock_plan(write_models(writes@), old(self).bundles()),
            final(self).awaited() == expected_echoes(write_models(writes@)),
            started.cancel_previous == (old(self).awaited() != Map::<Seq<char>, u32>::empty()),
            started.arm_deadline == (final(self).awaited() != Map::<Seq<char>, u32>::empty()),
            final(self).bundles() == old(self).bundles(),
            final(self).directory() == old(self).directory(),
    {
        let packets = unlock_packets(writes, self.dex_use_bundles);
        let cancel_previous = !self.tracker.is_idle();
        self.tracker = EchoTracker::begin(writes);
        let arm_deadline = !self.tracker.is_idle();
        Started { packets, cancel_previous, arm_deadline }
    }
}

impl MessageHandler for DexOscHandler {
    type Output = Reaction;

    /// The reaction is the one that the message asks for while the echoes of
    /// before are awaited, and the echoes awaited after are those that the
    /// message leaves.
    open spec fn answers(&self, after: &Self, message: MessageModel, output: Reaction) -> bool {
        &&& output@ == reaction_to(self.awaited(), message)
        &&& after.awaited() == awaited_after_reaction(self.awaited(), message)
        &&& after.bundles() == self.bundles()
        &&& after.directory() == self.directory()
    }

    fn handle(&mut self, message: &OscMessage) -> (reaction: Reaction) {
        react(&mut self.tracker, message)
    }
}

} // verus!
