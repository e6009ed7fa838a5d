//! Whole connection attempts: what a driver that does as it is told makes of
//! the client, against endpoints that behave in a given way.

use vstd::prelude::*;

use crate::client::{advance, begin, react, ActionView, ClientState, EventView, Phase};
use crate::error::ClientError;
use crate::protocol::{fits_frame, handshake_doc, received};

verus! {

/// How one endpoint behaves when it is tried.
pub ghost struct Host {
    /// Whether it opens.
    pub opens: bool,
    /// The bytes read in answer to the handshake, or `None` where writing the
    /// handshake or reading the answer fails.
    pub reply: Option<Seq<u8>>,
}

/// `host` opens and answers the handshake of application `id` with a frame
/// that decodes.
pub open spec fn welcomes(host: Host, id: Seq<char>) -> bool {
    &&& host.opens
    &&& fits_frame(handshake_doc(id))
    &&& host.reply is Some
    &&& received(host.reply->Some_0) is Ok
}

/// The least index of a host that welcomes `id`, or the number of hosts
/// where none does.
pub open spec fn first_welcoming(hosts: Seq<Host>, id: Seq<char>) -> int
    decreases hosts.len(),
{
    if hosts.len() == 0 {
        0
    } else if welcomes(hosts[0], id) {
        0
    } else {
        1 + first_welcoming(hosts.drop_first(), id)
    }
}

/// What a driver reports after trying to open `host`.
pub open spec fn open_event(host: Host) -> EventView {
    if host.opens {
        EventView::Opened
    } else {
        EventView::OpenFailed
    }
}

/// What a driver reports after greeting `host`.
pub open spec fn greet_event(host: Host) -> EventView {
    match host.reply {
        Some(bytes) => EventView::Replied(bytes),
        None => EventView::TransportFailed,
    }
}

/// How an attempt ends.
pub ghost struct Ending {
    /// The client when the attempt has ended.
    pub client: ClientState,
    /// The last action, which tells the driver to stop.
    pub last: ActionView,
    /// The endpoints that the driver was told to open, in that order.
    pub opened: Seq<Seq<char>>,
}

/// Runs an attempt to its end: a driver does what `action` and the actions
/// after it say, and reports what happened. `hosts` says how the endpoints
/// behave: first the one that `action` is about, then those not yet tried.
pub open spec fn drive(s: ClientState, action: ActionView, hosts: Seq<Host>) -> Ending
    decreases hosts.len(), (if action is Open { 1nat } else { 0nat }),
{
    if hosts.len() == 0 {
        Ending { client: s, last: action, opened: Seq::empty() }
    } else {
        match action {
            ActionView::Done(_) => Ending { client: s, last: action, opened: Seq::empty() },
            ActionView::Open(endpoint) => {
                let (next, then) = react(s, open_event(hosts[0]));
                let rest = if then is Greet {
                    hosts
                } else {
                    hosts.drop_first()
                };
                let end = drive(next, then, rest);
                Ending { opened: seq![endpoint] + end.opened, ..end }
            },
            ActionView::Greet(_) => {
                let (next, then) = react(s, greet_event(hosts[0]));
                drive(next, then, hosts.drop_first())
            },
        }
    }
}

/// `first_welcoming` is an index at which a host welcomes, with none before
/// it that does, or the number of hosts.
pub proof fn lemma_first_welcoming(hosts: Seq<Host>, id: Seq<char>)
    ensures
        0 <= first_welcoming(hosts, id) <= hosts.len(),
        first_welcoming(hosts, id) < hosts.len() ==> welcomes(
            hosts[first_welcoming(hosts, id)],
            id,
        ),
        forall|j: int| 0 <= j < first_welcoming(hosts, id) ==> !welcomes(#[trigger] hosts[j], id),
    decreases hosts.len(),
{
    if hosts.len() > 0 && !welcomes(hosts[0], id) {
        let rest = hosts.drop_first();
        lemma_first_welcoming(rest, id);
        let k = first_welcoming(rest, id);
        if k < rest.len() {
            assert(rest[k] == hosts[k + 1]);
        }
        assert forall|j: int| 0 <= j < k + 1 implies !welcomes(#[trigger] hosts[j], id) by {
            if j > 0 {
                assert(hosts[j] == rest[j - 1]);
            }
        }
    }
}

/// From an endpoint being opened on, the run opens the endpoints in order up
/// to the first that welcomes and connects there, or opens them all and fails.
proof fn lemma_drive_from_opening(s: ClientState, endpoint: Seq<char>, hosts: Seq<Host>)
    requires
        s.phase == Phase::Opening,
        hosts.len() == s.untried.len() + 1,
    ensures
        ({
            let end = drive(s, ActionView::Open(endpoint), hosts);
            let k = first_welcoming(hosts, s.id);
            &&& end.client.id == s.id
            &&& end.client.phase == Phase::Idle
            &&& end.client.untried == Seq::<Seq<char>>::empty()
            &&& k < hosts.len() ==> {
                &&& end.last == ActionView::Done(Ok(()))
                &&& end.client.is_connected
                &&& end.opened == seq![endpoint] + s.untried.take(k)
            }
            &&& k >= hosts.len() ==> {
                &&& end.last == ActionView::Done(Err(ClientError::DiscordNotFound))
                &&& !end.client.is_connected
                &&& end.opened == seq![endpoint] + s.untried
            }
        }),
    decreases hosts.len(),
{
    let host = hosts[0];
    let rest = hosts.drop_first();
    let end = drive(s, ActionView::Open(endpoint), hosts);
    lemma_first_welcoming(hosts, s.id);
    if welcomes(host, s.id) {
        let (greeting, greet) = react(s, open_event(host));
        assert(greet is Greet);
        let (ready, done) = react(greeting, greet_event(host));
        assert(done == ActionView::Done(Ok(())));
        let tail = drive(ready, done, rest);
        assert(tail.opened =~= Seq::<Seq<char>>::empty());
        assert(drive(greeting, greet, hosts) == tail);
        assert(end.opened =~= seq![endpoint] + s.untried.take(0));
    } else {
        // Whatever went wrong with this endpoint, the client moves on.
        let (moved, then) = advance(s);
        let (next, after_open) = react(s, open_event(host));
        let after = if after_open is Greet {
            drive(next, after_open, hosts)
        } else {
            drive(next, after_open, rest)
        };
        assert(end.opened == seq![endpoint] + after.opened);
        if after_open is Greet {
            assert(react(next, greet_event(host)) == advance(next));
            assert(advance(next) == (moved, then));
        } else {
            assert((next, after_open) == (moved, then));
        }
        assert(after == drive(moved, then, rest));
        if s.untried.len() == 0 {
            assert(rest.len() == 0);
            assert(after.opened =~= Seq::<Seq<char>>::empty());
            assert(end.opened =~= seq![endpoint] + s.untried);
        } else {
            lemma_drive_from_opening(moved, s.untried[0], rest);
            let k = first_welcoming(rest, s.id);
            lemma_first_welcoming(rest, s.id);
            assert(first_welcoming(hosts, s.id) == k + 1);
            if k < rest.len() {
                assert(seq![s.untried[0]] + moved.untried.take(k) =~= s.untried.take(k + 1));
            } else {
                assert(seq![s.untried[0]] + moved.untried =~= s.untried);
            }
        }
    }
}

/// The candidates are opened strictly in their order. The first that opens
/// and answers the handshake with a frame that decodes is adopted: the
/// client is connected, the driver is told to stop, and no later candidate is
/// opened. Where no candidate does both, every candidate has been opened
/// once, the client is not connected, and the attempt ends with
/// `DiscordNotFound`.
pub proof fn lemma_probing_order(s: ClientState, list: Seq<Seq<char>>, hosts: Seq<Host>)
    requires
        hosts.len() == list.len(),
    ensures
        ({
            let (started, first) = begin(s, list);
            let end = drive(started, first, hosts);
            let k = first_welcoming(hosts, s.id);
            &&& end.client.id == s.id
            &&& end.client.phase == Phase::Idle
            &&& k < list.len() ==> {
                &&& end.last == ActionView::Done(Ok(()))
                &&& end.client.is_connected
                &&& end.opened == list.take(k + 1)
            }
            &&& k >= list.len() ==> {
                &&& end.last == ActionView::Done(Err(ClientError::DiscordNotFound))
                &&& !end.client.is_connected
                &&& end.opened == list
            }
        }),
{
    let (started, first) = begin(s, list);
    lemma_first_welcoming(hosts, s.id);
    if list.len() > 0 {
        lemma_drive_from_opening(started, list[0], hosts);
        let k = first_welcoming(hosts, s.id);
        if k < list.len() {
            assert(seq![list[0]] + started.untried.take(k) =~= list.take(k + 1));
        } else {
            assert(seq![list[0]] + started.untried =~= list);
        }
    } else {
        assert(drive(started, first, hosts).opened =~= list);
    }
}

/// Where no candidate both opens and answers the handshake with a frame that
/// decodes, the attempt ends with `DiscordNotFound` and leaves the client
/// not connected. On POSIX, where there is one candidate, that is so as soon
/// as that one fails to open or to greet.
pub proof fn lemma_connect_failure(s: ClientState, list: Seq<Seq<char>>, hosts: Seq<Host>)
    requires
        hosts.len() == list.len(),
        forall|i: int| 0 <= i < hosts.len() ==> !welcomes(#[trigger] hosts[i], s.id),
    ensures
        ({
            let (started, first) = begin(s, list);
            let end = drive(started, first, hosts);
            &&& end.last == ActionView::Done(Err(ClientError::DiscordNotFound))
            &&& !end.client.is_connected
            &&& end.client.phase == Phase::Idle
        }),
{
    lemma_first_welcoming(hosts, s.id);
    lemma_probing_order(s, list, hosts);
}

/// A client becomes connected in one way only: by an answer to its handshake
/// that decodes. Starting an attempt leaves it not connected.
pub proof fn lemma_connected_only_by_welcome(s: ClientState, event: EventView, list: Seq<Seq<char>>)
    ensures
        !begin(s, list).0.is_connected,
        react(s, event).0.is_connected ==> s.phase == Phase::Greeting && event is Replied
            && received(event->Replied_0) is Ok,
{
}

} // verus!
