use vstd::prelude::*;

use crate::server_state::{
    canonical_outcome, kept, orphans, registered, AppState, RegistrationMessage, RunCommandResponse,
};

verus! {

/// Where a connection stands.
#[derive(Clone, Copy, PartialEq, Eq, Debug)]
pub enum Phase {
    /// Waiting for the registration frame.
    Handshaking,
    /// Admitted under this identity; responses are read.
    Registered(u128),
    /// Gone: nothing more is read.
    Closed,
}

/// What the socket side saw. `S` is the handle of the connection's outbound queue.
pub enum StudioEvent<S> {
    /// A binary frame that decoded as a registration, with the queue that will carry
    /// commands to the instance and the RFC 3339 text of the moment.
    Registration { registration: RegistrationMessage, sender: S, connected_at: String },
    /// A first frame that is not a registration, or a registration that failed to decode.
    InvalidHandshake,
    /// A binary frame that decoded as a response.
    Response(RunCommandResponse),
    /// A frame that is neither a response nor a close.
    Undecodable,
    /// The peer closed, or the socket failed.
    Closed,
}

/// What the socket side does next. `C` is the completion handle of a pending request.
pub enum StudioAction<C> {
    /// Close the socket; nothing was registered.
    Abort,
    /// Send the acknowledgement carrying this identity, then run the two loops.
    Acknowledge(u128),
    /// Fire this completion with this outcome.
    Complete(C, Result<String, String>),
    /// Nothing to do.
    Ignore,
    /// Fail each of these completions with the disconnection notice, then stop.
    FailPending(Vec<C>),
}

/// Takes one event of a connection in phase `phase` and says the next phase and what to do.
pub fn on_event<S, C>(state: &mut AppState<S, C>, phase: Phase, event: StudioEvent<S>) -> (r: (Phase, StudioAction<C>))
    requires
        old(state).wf(),
    ensures
        final(state).wf(),
        match (phase, event) {
            (Phase::Handshaking, StudioEvent::Registration { registration, sender, connected_at }) => match r {
                (Phase::Registered(id), StudioAction::Acknowledge(id2)) => {
                    &&& id == id2
                    &&& !old(state).live_ids().contains(id)
                    &&& final(state).live_ids() == old(state).live_ids().push(id)
                    &&& final(state).connections_view().len() == old(state).connections_view().len() + 1
                    &&& final(state).connections_view().drop_last() == old(state).connections_view()
                    &&& final(state).connections_view().last().0 == id
                    &&& registered(final(state).connections_view().last().1, registration, sender, connected_at@)
                    &&& final(state).pending_view() == old(state).pending_view()
                    &&& final(state).sessions_view() == old(state).sessions_view()
                },
                (Phase::Closed, StudioAction::Abort) => *final(state) == *old(state) && old(state).live_ids().len() > 0,
                _ => false,
            },
            (Phase::Handshaking, _) => r == (Phase::Closed, StudioAction::<C>::Abort) && *final(state) == *old(state),
            (Phase::Registered(id), StudioEvent::Response(response)) => {
                &&& r.0 == Phase::Registered(id)
                &&& final(state).live_ids() == old(state).live_ids()
                &&& final(state).connections_view() == old(state).connections_view()
                &&& final(state).sessions_view() == old(state).sessions_view()
                &&& if old(state).pending_ids().contains(response.id) {
                    &&& r.1 is Complete
                    &&& canonical_outcome(r.1->Complete_1, response)
                    &&& exists|i: int|
                        0 <= i < old(state).pending_view().len() && old(state).pending_view()[i].0 == response.id
                            && r.1->Complete_0 == #[trigger] old(state).pending_view()[i].1.sender
                            && final(state).pending_view() == old(state).pending_view().remove(i)
                } else {
                    r.1 is Ignore && *final(state) == *old(state)
                }
            },
            (Phase::Registered(id), StudioEvent::Closed) => {
                &&& r.0 == Phase::Closed
                &&& r.1 is FailPending
                &&& r.1->FailPending_0@ == orphans(old(state).pending_view(), id)
                &&& final(state).pending_view() == kept(old(state).pending_view(), id)
                &&& !final(state).live_ids().contains(id)
                &&& old(state).live_ids().contains(id) ==> exists|i: int|
                    0 <= i < old(state).connections_view().len() && old(state).connections_view()[i].0 == id
                        && #[trigger] final(state).connections_view() == old(state).connections_view().remove(i)
                &&& !old(state).live_ids().contains(id) ==> final(state).connections_view()
                    == old(state).connections_view()
                &&& final(state).sessions_view() == old(state).sessions_view()
            },
            (Phase::Registered(id), _) => r == (Phase::Registered(id), StudioAction::<C>::Ignore) && *final(state)
                == *old(state),
            (Phase::Closed, _) => r == (Phase::Closed, StudioAction::<C>::Ignore) && *final(state) == *old(state),
        },
{
    match phase {
        Phase::Handshaking => match event {
            StudioEvent::Registration { registration, sender, connected_at } => {
                let ghost pre = *state;
                match state.register(registration, sender, connected_at) {
                    Some(id) => {
                        assert(state.live_ids() =~= pre.live_ids().push(id));
                        (Phase::Registered(id), StudioAction::Acknowledge(id))
                    },
                    None => {
                        assert(*state == pre);
                        (Phase::Closed, StudioAction::Abort)
                    },
                }
            },
            _ => (Phase::Closed, StudioAction::Abort),
        },
        Phase::Registered(id) => match event {
            StudioEvent::Response(response) => match state.deliver_response(response) {
                Some((c, outcome)) => (Phase::Registered(id), StudioAction::Complete(c, outcome)),
                None => (Phase::Registered(id), StudioAction::Ignore),
            },
            StudioEvent::Closed => {
                let failed = state.disconnect(id);
                (Phase::Closed, StudioAction::FailPending(failed))
            },
            _ => (Phase::Registered(id), StudioAction::Ignore),
        },
        Phase::Closed => (Phase::Closed, StudioAction::Ignore),
    }
}

} // verus!
