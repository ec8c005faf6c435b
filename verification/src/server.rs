//! The signal server: one emit method for each signal of the interface, and
//! the loop that drains what the transport delivers.

use vstd::prelude::*;
use vstd::string::*;
use crate::document::{object_text, JsonModel, Member};
use crate::encoder::{
    encode_fields, lemma_distinct_names_keep_every_field, member_of, names_distinct,
};
use crate::field::{views, Field, FieldValue, FieldView, Number};
use crate::topic::{signal_topic, topic_of};

verus! {

/// One publish: what an emit hands to the transport.
#[derive(Clone, Debug, PartialEq, Eq)]
pub struct Publication {
    pub topic: String,
    pub payload: String,
}

/// One inbound frame.
#[derive(Clone, Debug, PartialEq, Eq)]
pub struct Message {
    pub topic: String,
    pub payload: Vec<u8>,
}

/// Why the transport did not take a publish.
#[derive(Clone, Copy, Debug, PartialEq, Eq, Structural)]
pub enum TransportError {
    /// The session is closed.
    SessionClosed,
    /// The broker rejected the publish.
    Rejected,
}

/// Where the server stands in its life.
#[derive(Clone, Copy, Debug, PartialEq, Eq, Structural)]
pub enum ServerState {
    /// Constructed; the inbound loop has not run.
    Idle,
    /// Inside the inbound loop.
    Processing,
    /// The receive sequence has ended. Nothing leads out of this state.
    Closed,
}

/// What the inbound loop does after one pull.
#[derive(Clone, Copy, Debug, PartialEq, Eq, Structural)]
pub enum Flow {
    /// Pull again.
    Continue,
    /// Return.
    Stop,
}

/// The name of the interface.
pub open spec fn interface_name() -> Seq<char> {
    "SignalOnly"@
}

/// The topic of the signal `anotherSignal`.
pub open spec fn another_signal_topic() -> Seq<char> {
    topic_of(interface_name(), "anotherSignal"@)
}

/// The entries of the payload of `anotherSignal`: `one`, `two` and `three`,
/// in this order.
pub open spec fn another_signal_entries(one: Number, two: bool, three: Seq<char>) -> Seq<Member> {
    seq![
        Member { name: "one"@, value: JsonModel::Number(one.canonical()) },
        Member { name: "two"@, value: JsonModel::Boolean(two) },
        Member { name: "three"@, value: JsonModel::Text(three) },
    ]
}

/// Whether `publication` is the publish of `anotherSignal` with these field
/// values: on the signal's topic, with the text of the signal's entries.
pub open spec fn is_another_signal(
    publication: Publication,
    one: Number,
    two: bool,
    three: Seq<char>,
) -> bool {
    &&& publication.topic@ == another_signal_topic()
    &&& publication.payload@ == object_text(another_signal_entries(one, two, three))
}

/// Every publish of `anotherSignal` goes to one and the same topic,
/// whatever the field values: `SignalOnly/signal/anotherSignal`.
pub proof fn lemma_topic_is_fixed(
    first: Publication,
    second: Publication,
    first_values: (Number, bool, Seq<char>),
    second_values: (Number, bool, Seq<char>),
)
    requires
        is_another_signal(first, first_values.0, first_values.1, first_values.2),
        is_another_signal(second, second_values.0, second_values.1, second_values.2),
    ensures
        first.topic@ == second.topic@,
        first.topic@ == "SignalOnly/signal/anotherSignal"@,
{
    reveal_strlit("SignalOnly");
    reveal_strlit("/signal/");
    reveal_strlit("anotherSignal");
    reveal_strlit("SignalOnly/signal/anotherSignal");
    assert(another_signal_topic() =~= "SignalOnly/signal/anotherSignal"@);
}

/// The state on entry to the inbound loop: an idle server starts to
/// process; a closed one stays closed.
pub open spec fn entered(state: ServerState) -> ServerState {
    if state is Closed {
        ServerState::Closed
    } else {
        ServerState::Processing
    }
}

/// The state after one pull and what the loop does next. `pulled` is `None`
/// when the receive sequence has ended, `Some(None)` for a tick without
/// data and `Some(Some(..))` for a frame.
pub open spec fn step(state: ServerState, pulled: Option<Option<Message>>) -> (ServerState, Flow) {
    if pulled is None || state is Closed {
        (ServerState::Closed, Flow::Stop)
    } else {
        (ServerState::Processing, Flow::Continue)
    }
}

/// The state after a run of pulls, one after the other.
pub open spec fn run(state: ServerState, pulls: Seq<Option<Option<Message>>>) -> ServerState
    decreases pulls.len(),
{
    if pulls.len() == 0 {
        state
    } else {
        step(run(state, pulls.drop_last()), pulls.last()).0
    }
}

/// A pull by reference, as the value it refers to.
pub open spec fn pulled_value(pulled: Option<&Option<Message>>) -> Option<Option<Message>> {
    match pulled {
        Some(item) => Some(*item),
        None => None,
    }
}

/// The pulls that hand over `items` one by one, without the end.
pub open spec fn pulls_of(items: Seq<Option<Message>>) -> Seq<Option<Option<Message>>> {
    items.map_values(|item: Option<Message>| Some(item))
}

/// Nothing leads out of `Closed`: a closed server is closed after any run
/// of pulls.
pub proof fn lemma_run_of_closed(state: ServerState, pulls: Seq<Option<Option<Message>>>)
    ensures
        state is Closed ==> run(state, pulls) is Closed,
    decreases pulls.len(),
{
    if pulls.len() > 0 {
        lemma_run_of_closed(state, pulls.drop_last());
    }
}

/// A tick without data leaves a processing server processing, and the loop
/// goes on.
pub proof fn lemma_tick_is_absorbed()
    ensures
        step(ServerState::Processing, Some(None)) == (ServerState::Processing, Flow::Continue),
{
}

/// A server that is not closed stays open over any run of items, ticks or
/// frames, and is processing once it has taken the first.
pub proof fn lemma_items_keep_the_server_open(state: ServerState, items: Seq<Option<Message>>)
    requires
        !(state is Closed),
    ensures
        run(state, pulls_of(items)) == if items.len() == 0 {
            state
        } else {
            ServerState::Processing
        },
    decreases items.len(),
{
    if items.len() > 0 {
        lemma_items_keep_the_server_open(state, items.drop_last());
        assert(pulls_of(items).drop_last() =~= pulls_of(items.drop_last()));
    }
}

/// The loop returns when the receive sequence is exhausted, and not before:
/// after any `k` of the items the next item makes it pull again, whatever
/// the item is, and only the end of the sequence makes it stop, with the
/// server closed.
pub proof fn lemma_loop_ends_with_the_sequence(
    state: ServerState,
    items: Seq<Option<Message>>,
    k: int,
)
    requires
        !(state is Closed),
        0 <= k <= items.len(),
    ensures
        k < items.len() ==> step(run(state, pulls_of(items.take(k))), Some(items[k])) == (
            ServerState::Processing,
            Flow::Continue,
        ),
        step(run(state, pulls_of(items.take(k))), None) == (ServerState::Closed, Flow::Stop),
{
    lemma_items_keep_the_server_open(state, items.take(k));
}

/// The server of the `SignalOnly` interface.
pub struct SignalOnlyServer {
    state: ServerState,
}

impl View for SignalOnlyServer {
    type V = ServerState;

    closed spec fn view(&self) -> ServerState {
        self.state
    }
}

impl SignalOnlyServer {
    /// A server that has not started to process.
    pub fn new() -> (server: SignalOnlyServer)
        ensures
            server@ == ServerState::Idle,
    {
        SignalOnlyServer { state: ServerState::Idle }
    }

    /// The state the server is in.
    pub fn state(&self) -> (state: ServerState)
        ensures
            state == self@,
    {
        self.state
    }

    /// Enters the inbound loop.
    pub fn enter(&mut self)
        ensures
            final(self)@ == entered(old(self)@),
    {
        match self.state {
            ServerState::Closed => {},
            _ => {
                self.state = ServerState::Processing;
            },
        }
    }

    /// Takes one pull from the receive sequence: `None` when the sequence
    /// has ended, else the item pulled. A frame goes to the handler of its
    /// topic; a tick is passed over.
    pub fn on_pull(&mut self, pulled: Option<&Option<Message>>) -> (flow: Flow)
        ensures
            (final(self)@, flow) == step(old(self)@, pulled_value(pulled)),
    {
        match pulled {
            None => {
                self.state = ServerState::Closed;
                Flow::Stop
            },
            Some(item) => {
                match self.state {
                    ServerState::Closed => Flow::Stop,
                    _ => {
                        self.state = ServerState::Processing;
                        match item {
                            Some(message) => self.dispatch(message),
                            None => {},
                        }
                        Flow::Continue
                    },
                }
            },
        }
    }

    /// The handler of inbound frames. The interface declares nothing
    /// inbound, so no topic has a handler and every frame is dropped.
    fn dispatch(&self, _message: &Message) {
    }

    /// Runs the inbound loop over a receive sequence: enters, pulls
    /// `received` item by item and then meets its end. Returns how many
    /// items it took, which is all of them unless the server was closed
    /// before.
    pub fn process(&mut self, received: &Vec<Option<Message>>) -> (taken: usize)
        ensures
            final(self)@ == ServerState::Closed,
            taken == if old(self)@ is Closed {
                0
            } else {
                received.len()
            },
    {
        let ghost start = self@;
        self.enter();
        let mut taken: usize = 0;
        let mut flow = Flow::Continue;
        while taken < received.len() && flow == Flow::Continue
            invariant
                taken <= received.len(),
                start is Closed ==> taken == 0 && self@ is Closed,
                !(start is Closed) ==> flow == Flow::Continue && !(self@ is Closed),
            decreases
                    received.len() - taken,
                    (if flow == Flow::Continue {
                        1int
                    } else {
                        0int
                    }),
        {
            flow = self.on_pull(Some(&received[taken]));
            if flow == Flow::Continue {
                taken += 1;
            }
        }
        self.on_pull(None);
        taken
    }

    /// The publish of `anotherSignal` with these field values.
    pub fn another_signal(one: Number, two: bool, three: String) -> (publication: Publication)
        ensures
            is_another_signal(publication, one, two, three@),
    {
        let mut fields: Vec<Field> = Vec::new();
        fields.push(Field { name: String::from_str("one"), value: FieldValue::Float(one) });
        fields.push(Field { name: String::from_str("two"), value: FieldValue::Boolean(two) });
        fields.push(Field { name: String::from_str("three"), value: FieldValue::Text(three) });
        let payload = encode_fields(&fields);
        proof {
            let declared = views(fields@);
            reveal_strlit("one");
            reveal_strlit("two");
            reveal_strlit("three");
            assert("one"@ != "two"@) by {
                assert("one"@[0] != "two"@[0]);
            }
            assert("one"@ != "three"@) by {
                assert("one"@[0] != "three"@[0]);
            }
            assert("two"@ != "three"@) by {
                assert("two"@[1] != "three"@[1]);
            }
            assert(names_distinct(declared));
            lemma_distinct_names_keep_every_field(declared);
            assert(declared.map_values(|field: FieldView| member_of(field))
                =~= another_signal_entries(one, two, three@));
        }
        let topic = signal_topic("SignalOnly", "anotherSignal");
        Publication { topic, payload }
    }

    /// Emits `anotherSignal`: hands its publish to `publish`, once, and
    /// returns what `publish` returned.
    pub fn emit_another_signal<P>(
        &self,
        one: Number,
        two: bool,
        three: String,
        publish: P,
    ) -> (outcome: Result<(), TransportError>) where
        P: FnOnce(Publication) -> Result<(), TransportError>,

        requires
            forall|publication: Publication|
                is_another_signal(publication, one, two, three@) ==> call_requires(
                    publish,
                    (publication,),
                ),
        ensures
            exists|publication: Publication|
                is_another_signal(publication, one, two, three@) && call_ensures(
                    publish,
                    (publication,),
                    outcome,
                ),
    {
        let publication = Self::another_signal(one, two, three);
        publish(publication)
    }
}

} // verus!
