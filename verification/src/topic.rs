//! Topics: the channel name that each signal is published on.

use vstd::prelude::*;
use vstd::string::*;

verus! {

/// The topic of signal `signal` of interface `interface`:
/// `<interface>/signal/<signal>`.
pub open spec fn topic_of(interface: Seq<char>, signal: Seq<char>) -> Seq<char> {
    interface + "/signal/"@ + signal
}

/// Builds the topic of a signal from the names of its interface and of the
/// signal itself.
pub fn signal_topic(interface: &str, signal: &str) -> (topic: String)
    ensures
        topic@ == topic_of(interface@, signal@),
{
    let mut topic = String::from_str(interface);
    topic.append("/signal/");
    topic.append(signal);
    topic
}

} // verus!
