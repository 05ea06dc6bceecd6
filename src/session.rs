use vstd::prelude::*;
use vstd::string::StrSliceExecFns;
use vstd::utf8::encode_utf8;

verus! {

/// A message received from an attached client.
#[derive(Debug)]
pub enum ClientFrame {
    Binary(Vec<u8>),
    Text(String),
    Close,
    /// Control traffic such as pings, which carries nothing for the device.
    Other,
}

/// What a session does with one client message.
#[derive(Debug)]
pub enum ClientAction {
    /// Queue these bytes for the device (dropped when nothing is open).
    Send(Vec<u8>),
    /// Nothing to do.
    Ignore,
    /// The client closed: end the session.
    End,
}

/// What a subscriber's receive on the fan-out channel produced.
#[derive(Debug)]
pub enum RecvOutcome {
    /// The next chunk the device sent.
    Data(Vec<u8>),
    /// The subscriber fell behind and this many chunks were dropped.
    Lagged(u64),
    /// The channel is gone.
    Closed,
}

/// What a session does with one fan-out receive.
#[derive(Debug)]
pub enum RelayAction {
    /// Send these bytes to the client as one binary message.
    Forward(Vec<u8>),
    /// Note that this many chunks were dropped, and go on.
    Skipped(u64),
    /// End the session.
    Stop,
}

/// Client messages map to device bytes: binary and text payloads alike are
/// raw bytes to send, a close ends the session, anything else is ignored.
pub fn client_action(frame: ClientFrame) -> (r: ClientAction)
    ensures
        match frame {
            ClientFrame::Binary(d) => r == ClientAction::Send(d),
            ClientFrame::Text(t) => r is Send && r->Send_0@ == encode_utf8(t@),
            ClientFrame::Close => r is End,
            ClientFrame::Other => r is Ignore,
        },
{
    match frame {
        ClientFrame::Binary(d) => ClientAction::Send(d),
        ClientFrame::Text(t) => ClientAction::Send(t.as_str().as_bytes_vec()),
        ClientFrame::Close => ClientAction::End,
        ClientFrame::Other => ClientAction::Ignore,
    }
}

/// Each chunk received is forwarded unchanged; a lag is noted and passed
/// over; a closed channel ends the session.
pub fn relay_action(outcome: RecvOutcome) -> (r: RelayAction)
    ensures
        r == relay_of(outcome),
{
    match outcome {
        RecvOutcome::Data(d) => RelayAction::Forward(d),
        RecvOutcome::Lagged(n) => RelayAction::Skipped(n),
        RecvOutcome::Closed => RelayAction::Stop,
    }
}

pub open spec fn relay_of(outcome: RecvOutcome) -> RelayAction {
    match outcome {
        RecvOutcome::Data(d) => RelayAction::Forward(d),
        RecvOutcome::Lagged(n) => RelayAction::Skipped(n),
        RecvOutcome::Closed => RelayAction::Stop,
    }
}

/// The chunks a session sends to its client, in order, for a run of receive
/// outcomes, as `relay_action` decides each of them.
pub open spec fn forwarded(outs: Seq<RecvOutcome>) -> Seq<Seq<u8>>
    decreases outs.len(),
{
    if outs.len() == 0 {
        Seq::empty()
    } else {
        let rest = forwarded(outs.drop_last());
        match relay_of(outs.last()) {
            RelayAction::Forward(d) => rest.push(d@),
            _ => rest,
        }
    }
}

/// The chunks of the device's stream as the channel delivered them, lag
/// notices left out.
pub open spec fn delivered(outs: Seq<RecvOutcome>) -> Seq<Seq<u8>> {
    outs.filter(|o: RecvOutcome| o is Data).map_values(|o: RecvOutcome| o->Data_0@)
}

/// The client receives exactly the chunks delivered to its subscription, in
/// the order delivered: no chunk is reordered, merged, repeated or lost by
/// the session, and the only gaps are those the channel signalled as lag.
pub proof fn lemma_relay_keeps_order(outs: Seq<RecvOutcome>)
    ensures
        forwarded(outs) == delivered(outs),
    decreases outs.len(),
{
    reveal(Seq::filter);
    if outs.len() == 0 {
        assert(delivered(outs) =~= Seq::<Seq<u8>>::empty());
    } else {
        let init = outs.drop_last();
        lemma_relay_keeps_order(init);
        let f = init.filter(|o: RecvOutcome| o is Data);
        match outs.last() {
            RecvOutcome::Data(d) => {
                assert(outs.filter(|o: RecvOutcome| o is Data) == f.push(outs.last()));
                assert(f.push(outs.last()).map_values(|o: RecvOutcome| o->Data_0@) =~= f.map_values(
                    |o: RecvOutcome| o->Data_0@,
                ).push(d@));
            },
            _ => {
                assert(outs.filter(|o: RecvOutcome| o is Data) == f);
            },
        }
    }
}

/// Splitting a run of outcomes anywhere splits what is forwarded at the
/// same place: what comes later is sent later.
pub proof fn lemma_forwarded_concat(a: Seq<RecvOutcome>, b: Seq<RecvOutcome>)
    ensures
        forwarded(a + b) == forwarded(a) + forwarded(b),
    decreases b.len(),
{
    if b.len() == 0 {
        assert(a + b =~= a);
        assert(forwarded(a) + forwarded(b) =~= forwarded(a));
    } else {
        let bi = b.drop_last();
        lemma_forwarded_concat(a, bi);
        assert((a + b).drop_last() =~= a + bi);
        assert((a + b).last() == b.last());
        match relay_of(b.last()) {
            RelayAction::Forward(d) => {
                assert(forwarded(a) + forwarded(bi).push(d@) =~= (forwarded(a) + forwarded(
                    bi,
                )).push(d@));
            },
            _ => {},
        }
    }
}

} // verus!
