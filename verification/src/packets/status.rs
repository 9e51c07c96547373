//! The handler of the phases before a login: handshake, status and ping.

use crate::errors::MinecraftError;
use crate::packets::{
    outcome_matches, ContextView, HandlerOutcome, Notice, NoticeView, PlayerContext, Step, Verdict,
};
use crate::protocol::State;
use crate::status::{
    ChatView, StatusPlayersSpec, StatusSpec, StatusVersionSpec, StatusView, VersionView,
};
use crate::types::{BaseComponent, Chat};
use crate::utils::text;
use crate::v1_21_8::{
    HandshakeIntent, Packet772, PacketView, PingResponseSpec, StatusResponseSpec,
};
use vstd::prelude::*;

verus! {

/// Number of the protocol version that the server speaks.
pub const PROTOCOL_NUMBER: i32 = 772;

/// Number of players that the server admits.
pub const MAX_PLAYERS: i32 = 10;

/// What the server says of itself: its version, room for ten players and
/// none of them online, its description, no favicon, and secure chat not
/// enforced.
pub open spec fn server_status() -> StatusView {
    StatusView {
        version: Some(VersionView { name: "1.21.8"@, protocol: PROTOCOL_NUMBER as int }),
        max: MAX_PLAYERS as int,
        online: 0,
        sample: Seq::empty(),
        description: ChatView {
            text: "blockchain - instead of bitcoin, a block game for your key chain!"@,
            base: BaseComponent::plain(),
        },
        favicon: None,
        enforces_secure_chat: false,
    }
}

/// The phase that a handshake with this intent leads to. A transfer is not
/// supported and leaves the phase as it is.
pub open spec fn phase_after_handshake(current: State, intent: HandshakeIntent) -> State {
    match intent {
        HandshakeIntent::Status => State::Status,
        HandshakeIntent::Login => State::Login,
        HandshakeIntent::Transfer => current,
    }
}

/// What the handler decides: a ping is echoed, a status request is answered
/// with the server's status, a handshake sets the phase, or is noted where
/// it asks for a transfer, and every other packet is not known here.
pub open spec fn status_step(context: ContextView, packet: PacketView) -> Step {
    match packet {
        PacketView::PingRequest { payload } => Step {
            context,
            verdict: Verdict::Reply(PacketView::PingResponse { payload }),
        },
        PacketView::Handshake { intent, .. } => Step {
            context: ContextView { state: phase_after_handshake(context.state, intent), ..context },
            verdict: if intent == HandshakeIntent::Transfer {
                Verdict::Noted(NoticeView::TransferUnsupported)
            } else {
                Verdict::Silent
            },
        },
        PacketView::StatusRequest => Step {
            context,
            verdict: Verdict::Reply(PacketView::StatusResponse { status: server_status() }),
        },
        _ => Step { context, verdict: Verdict::Unhandled },
    }
}

/// The status that the server answers a status request with.
pub fn build_server_status() -> (r: StatusSpec)
    ensures
        r@ == server_status(),
{
    let r = StatusSpec {
        version: Some(StatusVersionSpec { name: "1.21.8".to_owned(), protocol: PROTOCOL_NUMBER }),
        players: StatusPlayersSpec { max: MAX_PLAYERS, online: 0, sample: Vec::new() },
        description: Chat::Text(
            text("blockchain - instead of bitcoin, a block game for your key chain!"),
        ),
        favicon: None,
        enforces_secure_chat: false,
    };
    assert(r@.sample =~= Seq::empty());
    r
}

/// Handles a packet while the phase is `Handshaking` or `Status`.
pub fn handle_status_packets(packet: Packet772, context: &mut PlayerContext) -> (r: Result<
    HandlerOutcome,
    MinecraftError,
>)
    ensures
        outcome_matches(status_step(old(context)@, packet@), packet, r, final(context)@),
{
    match packet {
        Packet772::PingRequest(v) => {
            let response = Packet772::PingResponse(PingResponseSpec { payload: v.payload });
            Ok(HandlerOutcome { leftover: None, response: Some(response), keep_open: true, notice: None })
        },
        Packet772::Handshake(v) => {
            let notice = match v.intent {
                HandshakeIntent::Status => {
                    context.state = State::Status;
                    None
                },
                HandshakeIntent::Login => {
                    context.state = State::Login;
                    None
                },
                HandshakeIntent::Transfer => Some(Notice::TransferUnsupported),
            };
            Ok(HandlerOutcome { leftover: None, response: None, keep_open: true, notice })
        },
        Packet772::StatusRequest(_) => {
            let response = Packet772::StatusResponse(
                StatusResponseSpec { response: build_server_status() },
            );
            Ok(HandlerOutcome { leftover: None, response: Some(response), keep_open: true, notice: None })
        },
        _ => Ok(HandlerOutcome { leftover: Some(packet), response: None, keep_open: true, notice: None }),
    }
}

} // verus!
