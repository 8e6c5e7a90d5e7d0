//! The byte stream a connection talks over: plain TCP, TLS, WebSocket, or WebSocket over TLS.

use crate::cli::ConnectionArgs;
use vstd::prelude::*;

pub mod tls;
pub mod ws;

verus! {

/// The layers of a connection.
#[derive(Clone, Copy, Debug, PartialEq, Eq, Structural)]
pub enum Transport {
    Tcp,
    Tls,
    Ws,
    /// WebSocket over TLS: the upgrade runs over a stream that is already encrypted.
    Wss,
}

/// The layers the arguments ask for.
pub open spec fn chosen_transport(args: &ConnectionArgs) -> Transport {
    match (args.tls, args.websocket) {
        (true, true) => Transport::Wss,
        (true, false) => Transport::Tls,
        (false, true) => Transport::Ws,
        (false, false) => Transport::Tcp,
    }
}

/// The layers the arguments ask for.
pub fn transport(args: &ConnectionArgs) -> (res: Transport)
    ensures
        res == chosen_transport(args),
{
    if args.tls && args.websocket {
        Transport::Wss
    } else if args.tls {
        Transport::Tls
    } else if args.websocket {
        Transport::Ws
    } else {
        Transport::Tcp
    }
}

/// The stream is encrypted exactly when TLS was asked for, and framed by WebSocket exactly when
/// that was.
pub proof fn the_layers_are_those_asked_for(args: &ConnectionArgs)
    ensures
        args.tls <==> chosen_transport(args) == Transport::Tls || chosen_transport(args)
            == Transport::Wss,
        args.websocket <==> chosen_transport(args) == Transport::Ws || chosen_transport(args)
            == Transport::Wss,
{
}

} // verus!
