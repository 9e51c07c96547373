//! The handler of the configuration phase.

use crate::errors::MinecraftError;
use crate::packets::{
    outcome_matches, ContextView, HandlerOutcome, Notice, NoticeView, PlayerContext, Step, Verdict,
};
use crate::protocol::State;
use crate::types::bytes_equal;
use crate::v1_21_8::{ConfigurationFinishSpec, Packet772, PacketView};
use vstd::prelude::*;
use vstd::string::StringSliceAdditionalSpecFns;
use vstd::utf8::encode_utf8;

verus! {

/// The name of the channel on which a client names its brand, in UTF-8.
pub open spec fn brand_channel() -> Seq<u8> {
    "minecraft:brand".spec_bytes()
}

/// What the handler decides: a plugin message is taken and not answered,
/// and noted where it names the brand of the client; the client's settings
/// are answered with the end of the configuration; the acknowledgement of
/// that end starts the play phase; and every other packet is not known
/// here.
pub open spec fn configuration_step(context: ContextView, packet: PacketView) -> Step {
    match packet {
        PacketView::ServerBoundPluginMessage { id, data } => Step {
            context,
            verdict: if encode_utf8(id) == brand_channel() {
                Verdict::Noted(NoticeView::ClientBrand(data))
            } else {
                Verdict::Silent
            },
        },
        PacketView::ConfigurationClientInformation { .. } => Step {
            context,
            verdict: Verdict::Reply(PacketView::ConfigurationFinish),
        },
        PacketView::ConfigurationFinishAck => Step {
            context: ContextView { state: State::Play, ..context },
            verdict: Verdict::Silent,
        },
        _ => Step { context, verdict: Verdict::Unhandled },
    }
}

/// Handles a packet while the phase is `Configuration`.
pub fn handle_configuration_packet(packet: Packet772, context: &mut PlayerContext) -> (r: Result<
    HandlerOutcome,
    MinecraftError,
>)
    ensures
        outcome_matches(configuration_step(old(context)@, packet@), packet, r, final(context)@),
{
    match packet {
        Packet772::ServerBoundPluginMessage(spec) => {
            let notice = if bytes_equal(spec.id.as_str().as_bytes(), "minecraft:brand".as_bytes()) {
                Some(Notice::ClientBrand(spec.data))
            } else {
                None
            };
            Ok(HandlerOutcome { leftover: None, response: None, keep_open: true, notice })
        },
        Packet772::ConfigurationClientInformation(_) => {
            let response = Packet772::ConfigurationFinish(ConfigurationFinishSpec {  });
            Ok(HandlerOutcome { leftover: None, response: Some(response), keep_open: true, notice: None })
        },
        Packet772::ConfigurationFinishAck(_) => {
            context.state = State::Play;
            Ok(HandlerOutcome { leftover: None, response: None, keep_open: true, notice: None })
        },
        _ => Ok(HandlerOutcome { leftover: Some(packet), response: None, keep_open: true, notice: None }),
    }
}

} // verus!
