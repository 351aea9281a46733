//! The decisions of a service's run loop. The loop itself (pulling
//! requests, awaiting the method, pushing responses) runs outside; after
//! each step it reports what happened and is told what to do next.

use vstd::prelude::*;

verus! {

/// What the run loop reports after a step.
pub enum ServeEvent<Req, Resp> {
    /// The loop starts.
    Started,
    /// The next request, or none when the peer closed.
    Received(Option<Req>),
    /// The service's answer to a request, if it gives one.
    Handled(Option<Resp>),
    /// Whether pushing the response succeeded.
    Sent(bool),
}

/// What the run loop does next.
pub enum ServeAction<Req, Resp> {
    /// Pull the next request.
    Receive,
    /// Hand the request to the service.
    Handle(Req),
    /// Push the response.
    Send(Resp),
    /// End the loop.
    Stop,
}

/// The next action of a service loop: while the service is alive, pull a
/// request, hand it to the service, and push its response if it gives one;
/// stop when the service is no longer alive, the peer closes, or a push
/// fails. Responses thus go out in the order the requests came in.
pub fn serve_step<Req, Resp>(alive: bool, event: ServeEvent<Req, Resp>) -> (r: ServeAction<Req, Resp>)
    ensures
        match event {
            ServeEvent::Started | ServeEvent::Handled(None) | ServeEvent::Sent(true) => if alive {
                r is Receive
            } else {
                r is Stop
            },
            ServeEvent::Received(Some(req)) => r == ServeAction::<Req, Resp>::Handle(req),
            ServeEvent::Received(None) => r is Stop,
            ServeEvent::Handled(Some(resp)) => r == ServeAction::<Req, Resp>::Send(resp),
            ServeEvent::Sent(false) => r is Stop,
        },
{
    match event {
        ServeEvent::Received(Some(req)) => ServeAction::Handle(req),
        ServeEvent::Received(None) => ServeAction::Stop,
        ServeEvent::Handled(Some(resp)) => ServeAction::Send(resp),
        ServeEvent::Sent(false) => ServeAction::Stop,
        _ => if alive {
            ServeAction::Receive
        } else {
            ServeAction::Stop
        },
    }
}

} // verus!
