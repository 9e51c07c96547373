//! The packets of protocol version 772 and their layout on the wire.

use crate::protocol::{DeserializeErr, Id, PacketDirection, PacketErr, SerializeErr, State};
use crate::status::{json_status, StatusSpec, StatusView};
use crate::types::{
    append_bytes, lemma_append_step, lemma_read_bool_back, lemma_read_bytes_back, lemma_read_string_back,
    lemma_read_u128_back, lemma_read_u16_back, lemma_read_u64_back, lemma_read_u8_back,
    lemma_read_varint_back, opt_string_view, read_bool, read_bytes, read_opt_string, read_string,
    read_u128, read_u16, read_u64, read_u8, read_varint, ser_bool, ser_bytes, ser_opt_string,
    ser_string, ser_u128, ser_u16, ser_u64, ser_varint, spec_read_bool, spec_read_bytes,
    spec_read_opt_string, spec_read_string, spec_read_u128, spec_read_u16, spec_read_u64,
    spec_read_u8, spec_read_varint, write_bool, write_bytes, write_string, write_u128, write_u16,
    write_u64, write_u8, VarInt, MAX_FIELD_LEN,
};
use crate::utils::SliceSerializer;
use crate::uuid::UUID4;
use crate::varint::{encode_varint, write_varint};
use vstd::prelude::*;
use vstd::utf8::encode_utf8;

verus! {

/// What a client wants after the handshake.
#[derive(Clone, Copy, Debug, PartialEq, Eq, Structural)]
pub enum HandshakeIntent {
    Status,
    Login,
    Transfer,
}

impl HandshakeIntent {
    /// The byte that stands for the choice.
    pub open spec fn code(self) -> u8 {
        match self {
            HandshakeIntent::Status => 1,
            HandshakeIntent::Login => 2,
            HandshakeIntent::Transfer => 3,
        }
    }

    /// The choice that a byte stands for, if it stands for one.
    pub open spec fn spec_from_u8(b: u8) -> Option<Self> {
        if b == 1 {
            Some(HandshakeIntent::Status)
        } else if b == 2 {
            Some(HandshakeIntent::Login)
        } else if b == 3 {
            Some(HandshakeIntent::Transfer)
        } else {
            None
        }
    }

    /// The byte that stands for the choice.
    pub fn to_u8(self) -> (r: u8)
        ensures
            r == self.code(),
    {
        match self {
            HandshakeIntent::Status => 1,
            HandshakeIntent::Login => 2,
            HandshakeIntent::Transfer => 3,
        }
    }

    /// The choice that a byte stands for, if it stands for one.
    pub fn from_u8(b: u8) -> (r: Option<Self>)
        ensures
            r == Self::spec_from_u8(b),
    {
        if b == 1 {
            Some(HandshakeIntent::Status)
        } else if b == 2 {
            Some(HandshakeIntent::Login)
        } else if b == 3 {
            Some(HandshakeIntent::Transfer)
        } else {
            None
        }
    }
}

/// Which chat messages a client shows.
#[derive(Clone, Copy, Debug, PartialEq, Eq, Structural)]
pub enum ChatMode {
    Enabled,
    CommandsOnly,
    Hidden,
}

impl ChatMode {
    /// The byte that stands for the choice.
    pub open spec fn code(self) -> u8 {
        match self {
            ChatMode::Enabled => 0,
            ChatMode::CommandsOnly => 1,
            ChatMode::Hidden => 2,
        }
    }

    /// The choice that a byte stands for, if it stands for one.
    pub open spec fn spec_from_u8(b: u8) -> Option<Self> {
        if b == 0 {
            Some(ChatMode::Enabled)
        } else if b == 1 {
            Some(ChatMode::CommandsOnly)
        } else if b == 2 {
            Some(ChatMode::Hidden)
        } else {
            None
        }
    }

    /// The byte that stands for the choice.
    pub fn to_u8(self) -> (r: u8)
        ensures
            r == self.code(),
    {
        match self {
            ChatMode::Enabled => 0,
            ChatMode::CommandsOnly => 1,
            ChatMode::Hidden => 2,
        }
    }

    /// The choice that a byte stands for, if it stands for one.
    pub fn from_u8(b: u8) -> (r: Option<Self>)
        ensures
            r == Self::spec_from_u8(b),
    {
        if b == 0 {
            Some(ChatMode::Enabled)
        } else if b == 1 {
            Some(ChatMode::CommandsOnly)
        } else if b == 2 {
            Some(ChatMode::Hidden)
        } else {
            None
        }
    }
}

/// The hand that a player uses most.
#[derive(Clone, Copy, Debug, PartialEq, Eq, Structural)]
pub enum MainHand {
    Left,
    Right,
}

impl MainHand {
    /// The byte that stands for the choice.
    pub open spec fn code(self) -> u8 {
        match self {
            MainHand::Left => 0,
            MainHand::Right => 1,
        }
    }

    /// The choice that a byte stands for, if it stands for one.
    pub open spec fn spec_from_u8(b: u8) -> Option<Self> {
        if b == 0 {
            Some(MainHand::Left)
        } else if b == 1 {
            Some(MainHand::Right)
        } else {
            None
        }
    }

    /// The byte that stands for the choice.
    pub fn to_u8(self) -> (r: u8)
        ensures
            r == self.code(),
    {
        match self {
            MainHand::Left => 0,
            MainHand::Right => 1,
        }
    }

    /// The choice that a byte stands for, if it stands for one.
    pub fn from_u8(b: u8) -> (r: Option<Self>)
        ensures
            r == Self::spec_from_u8(b),
    {
        if b == 0 {
            Some(MainHand::Left)
        } else if b == 1 {
            Some(MainHand::Right)
        } else {
            None
        }
    }
}

/// How many particles a client draws.
#[derive(Clone, Copy, Debug, PartialEq, Eq, Structural)]
pub enum ParticleStatus {
    All,
    Decreased,
    Minimal,
}

impl ParticleStatus {
    /// The byte that stands for the choice.
    pub open spec fn code(self) -> u8 {
        match self {
            ParticleStatus::All => 0,
            ParticleStatus::Decreased => 1,
            ParticleStatus::Minimal => 2,
        }
    }

    /// The choice that a byte stands for, if it stands for one.
    pub open spec fn spec_from_u8(b: u8) -> Option<Self> {
        if b == 0 {
            Some(ParticleStatus::All)
        } else if b == 1 {
            Some(ParticleStatus::Decreased)
        } else if b == 2 {
            Some(ParticleStatus::Minimal)
        } else {
            None
        }
    }

    /// The byte that stands for the choice.
    pub fn to_u8(self) -> (r: u8)
        ensures
            r == self.code(),
    {
        match self {
            ParticleStatus::All => 0,
            ParticleStatus::Decreased => 1,
            ParticleStatus::Minimal => 2,
        }
    }

    /// The choice that a byte stands for, if it stands for one.
    pub fn from_u8(b: u8) -> (r: Option<Self>)
        ensures
            r == Self::spec_from_u8(b),
    {
        if b == 0 {
            Some(ParticleStatus::All)
        } else if b == 1 {
            Some(ParticleStatus::Decreased)
        } else if b == 2 {
            Some(ParticleStatus::Minimal)
        } else {
            None
        }
    }
}

/// A number for the server to send back.
#[derive(Clone, Copy, Debug)]
pub struct PingRequestSpec {
    pub payload: u64,
}

/// The number of a ping, sent back.
#[derive(Clone, Copy, Debug)]
pub struct PingResponseSpec {
    pub payload: u64,
}

/// The first packet of a connection: what the client speaks, whom it
/// called, and what it wants.
#[derive(Clone, Debug)]
pub struct HandshakeSpec {
    pub protocol_version: VarInt,
    pub server_address: String,
    pub server_port: u16,
    pub intent: HandshakeIntent,
}

/// Asks for the status of the server.
#[derive(Clone, Copy, Debug)]
pub struct StatusRequestSpec {}

/// The status of the server, sent as a JSON document.
#[derive(Clone, Debug)]
pub struct StatusResponseSpec {
    pub response: StatusSpec,
}

/// Starts a login under a name and an identifier.
#[derive(Clone, Debug)]
pub struct LoginStartSpec {
    pub name: String,
    pub uuid: UUID4,
}

/// Asks the client to agree on a shared secret under the public key of
/// the server.
#[derive(Clone, Debug)]
pub struct LoginEncryptionRequestSpec {
    pub server_id: String,
    pub public_key: Vec<u8>,
    pub verify_token: Vec<u8>,
    pub should_authenticate: bool,
}

/// The shared secret and the verify token, each encrypted under the public
/// key of the server.
#[derive(Clone, Debug)]
pub struct LoginEncryptionResponseSpec {
    pub shared_secret: Vec<u8>,
    pub verify_token: Vec<u8>,
}

/// Tells the client that it is logged in, and as whom.
#[derive(Clone, Debug)]
pub struct LoginSuccessSpec {
    pub uuid: UUID4,
    pub username: String,
    pub properties: Vec<LoginSuccessProperty>,
}

/// Acknowledges a login that succeeded.
#[derive(Clone, Copy, Debug)]
pub struct LoginAcknowledgedSpec {}

/// The settings of the client.
#[derive(Clone, Debug)]
pub struct ConfigurationClientInformationSpec {
    pub locale: String,
    pub view_distance: u8,
    pub chat_mode: ChatMode,
    pub chat_colours: bool,
    pub display_skin_parts: u8,
    pub main_hand: MainHand,
    pub text_filtering: bool,
    pub allow_list_players: bool,
    pub particle_status: ParticleStatus,
}

/// Data on a named channel, such as the brand of the client.
#[derive(Clone, Debug)]
pub struct ServerBoundPluginMessageSpec {
    pub id: String,
    pub data: Vec<u8>,
}

/// Ends the configuration.
#[derive(Clone, Copy, Debug)]
pub struct ConfigurationFinishSpec {}

/// Acknowledges the end of the configuration.
#[derive(Clone, Copy, Debug)]
pub struct ConfigurationFinishAckSpec {}

/// A property of a player's profile, sent when a login succeeds.
#[derive(Clone, Debug)]
pub struct LoginSuccessProperty {
    pub name: String,
    pub value: String,
    pub signature: Option<String>,
}

/// What a property holds.
pub struct PropertyView {
    pub name: Seq<char>,
    pub value: Seq<char>,
    pub signature: Option<Seq<char>>,
}

impl View for LoginSuccessProperty {
    type V = PropertyView;

    open spec fn view(&self) -> PropertyView {
        PropertyView {
            name: self.name@,
            value: self.value@,
            signature: opt_string_view(self.signature),
        }
    }
}

/// The bytes of a property: name, value, and the signature behind a flag.
pub open spec fn ser_property(p: PropertyView) -> Seq<u8> {
    ser_string(p.name) + ser_string(p.value) + ser_opt_string(p.signature)
}

/// Whether each text of a property is short enough to be announced.
pub open spec fn property_fits(p: PropertyView) -> bool {
    &&& encode_utf8(p.name).len() <= MAX_FIELD_LEN
    &&& encode_utf8(p.value).len() <= MAX_FIELD_LEN
    &&& (p.signature matches Some(s) ==> encode_utf8(s).len() <= MAX_FIELD_LEN)
}

/// A property at `pos`: name, value, and the signature behind a flag.
pub open spec fn spec_read_property(data: Seq<u8>, pos: int) -> Result<
    (PropertyView, int),
    DeserializeErr,
> {
    match spec_read_string(data, pos) {
        Err(e) => Err(e),
        Ok((name, at1)) => match spec_read_string(data, at1) {
            Err(e) => Err(e),
            Ok((value, at2)) => match spec_read_opt_string(data, at2) {
                Err(e) => Err(e),
                Ok((signature, at3)) => Ok((PropertyView { name, value, signature }, at3)),
            },
        },
    }
}

impl LoginSuccessProperty {
    /// Appends the property to `out`; on an error `out` may hold a part of
    /// it.
    pub fn mc_serialize(&self, out: &mut Vec<u8>) -> (r: Result<(), SerializeErr>)
        ensures
            r is Ok <==> property_fits(self@),
            r is Ok ==> final(out)@ == old(out)@ + ser_property(self@),
            r is Err ==> r == Err::<(), SerializeErr>(SerializeErr::LengthTooLarge),
    {
        let ghost before = out@;
        match write_string(self.name.as_str(), out) {
            Ok(()) => {},
            Err(e) => { return Err(e); },
        }
        match write_string(self.value.as_str(), out) {
            Ok(()) => {},
            Err(e) => { return Err(e); },
        }
        match &self.signature {
            Some(s) => {
                write_bool(true, out);
                match write_string(s.as_str(), out) {
                    Ok(()) => {},
                    Err(e) => { return Err(e); },
                }
            },
            None => {
                write_bool(false, out);
            },
        }
        assert(out@ =~= before + ser_property(self@));
        Ok(())
    }

    /// Reads a property at `pos` of `data`, and says where it ends.
    pub fn mc_deserialize(data: &[u8], pos: usize) -> (r: Result<(Self, usize), DeserializeErr>)
        ensures
            match spec_read_property(data@, pos as int) {
                Ok((v, next)) => r matches Ok((rv, rnext)) && rv@ == v && rnext == next && next
                    <= data@.len(),
                Err(e) => r matches Err(re) && re == e,
            },
    {
        let (name, at1) = match read_string(data, pos) {
            Ok(x) => x,
            Err(e) => { return Err(e); },
        };
        let (value, at2) = match read_string(data, at1) {
            Ok(x) => x,
            Err(e) => { return Err(e); },
        };
        let (signature, at3) = match read_opt_string(data, at2) {
            Ok(x) => x,
            Err(e) => { return Err(e); },
        };
        Ok((LoginSuccessProperty { name, value, signature }, at3))
    }
}

/// Every packet of the protocol, whichever way it travels.
#[derive(Clone, Debug)]
pub enum Packet772 {
    PingRequest(PingRequestSpec),
    PingResponse(PingResponseSpec),
    Handshake(HandshakeSpec),
    StatusRequest(StatusRequestSpec),
    StatusResponse(StatusResponseSpec),
    LoginStart(LoginStartSpec),
    LoginEncryptionRequest(LoginEncryptionRequestSpec),
    LoginEncryptionResponse(LoginEncryptionResponseSpec),
    LoginSuccess(LoginSuccessSpec),
    LoginAcknowledged(LoginAcknowledgedSpec),
    ConfigurationClientInformation(ConfigurationClientInformationSpec),
    ServerBoundPluginMessage(ServerBoundPluginMessageSpec),
    ConfigurationFinish(ConfigurationFinishSpec),
    ConfigurationFinishAck(ConfigurationFinishAckSpec),
}

/// What a packet holds, as plain mathematical values.
pub enum PacketView {
    PingRequest { payload: u64 },
    PingResponse { payload: u64 },
    Handshake {
        protocol_version: i32,
        server_address: Seq<char>,
        server_port: u16,
        intent: HandshakeIntent,
    },
    StatusRequest,
    StatusResponse { status: StatusView },
    LoginStart { name: Seq<char>, uuid: u128 },
    LoginEncryptionRequest {
        server_id: Seq<char>,
        public_key: Seq<u8>,
        verify_token: Seq<u8>,
        should_authenticate: bool,
    },
    LoginEncryptionResponse { shared_secret: Seq<u8>, verify_token: Seq<u8> },
    LoginSuccess { uuid: u128, username: Seq<char>, properties: Seq<PropertyView> },
    LoginAcknowledged,
    ConfigurationClientInformation {
        locale: Seq<char>,
        view_distance: u8,
        chat_mode: ChatMode,
        chat_colours: bool,
        display_skin_parts: u8,
        main_hand: MainHand,
        text_filtering: bool,
        allow_list_players: bool,
        particle_status: ParticleStatus,
    },
    ServerBoundPluginMessage { id: Seq<char>, data: Seq<u8> },
    ConfigurationFinish,
    ConfigurationFinishAck,
}

/// What each property of a list holds.
pub open spec fn properties_view(props: Seq<LoginSuccessProperty>) -> Seq<PropertyView> {
    Seq::new(props.len(), |i: int| props[i]@)
}

impl View for Packet772 {
    type V = PacketView;

    open spec fn view(&self) -> PacketView {
        match self {
            Packet772::PingRequest(s) => PacketView::PingRequest { payload: s.payload },
            Packet772::PingResponse(s) => PacketView::PingResponse { payload: s.payload },
            Packet772::Handshake(s) => PacketView::Handshake {
                protocol_version: s.protocol_version.0,
                server_address: s.server_address@,
                server_port: s.server_port,
                intent: s.intent,
            },
            Packet772::StatusRequest(_) => PacketView::StatusRequest,
            Packet772::StatusResponse(s) => PacketView::StatusResponse { status: s.response@ },
            Packet772::LoginStart(s) => PacketView::LoginStart { name: s.name@, uuid: s.uuid.raw },
            Packet772::LoginEncryptionRequest(s) => PacketView::LoginEncryptionRequest {
                server_id: s.server_id@,
                public_key: s.public_key@,
                verify_token: s.verify_token@,
                should_authenticate: s.should_authenticate,
            },
            Packet772::LoginEncryptionResponse(s) => PacketView::LoginEncryptionResponse {
                shared_secret: s.shared_secret@,
                verify_token: s.verify_token@,
            },
            Packet772::LoginSuccess(s) => PacketView::LoginSuccess {
                uuid: s.uuid.raw,
                username: s.username@,
                properties: properties_view(s.properties@),
            },
            Packet772::LoginAcknowledged(_) => PacketView::LoginAcknowledged,
            Packet772::ConfigurationClientInformation(s) => {
                PacketView::ConfigurationClientInformation {
                    locale: s.locale@,
                    view_distance: s.view_distance,
                    chat_mode: s.chat_mode,
                    chat_colours: s.chat_colours,
                    display_skin_parts: s.display_skin_parts,
                    main_hand: s.main_hand,
                    text_filtering: s.text_filtering,
                    allow_list_players: s.allow_list_players,
                    particle_status: s.particle_status,
                }
            },
            Packet772::ServerBoundPluginMessage(s) => PacketView::ServerBoundPluginMessage {
                id: s.id@,
                data: s.data@,
            },
            Packet772::ConfigurationFinish(_) => PacketView::ConfigurationFinish,
            Packet772::ConfigurationFinishAck(_) => PacketView::ConfigurationFinishAck,
        }
    }
}

/// The properties of a list, one behind the other.
pub open spec fn ser_properties(props: Seq<PropertyView>) -> Seq<u8>
    decreases props.len(),
{
    if props.len() == 0 {
        Seq::<u8>::empty()
    } else {
        ser_properties(props.drop_last()) + ser_property(props.last())
    }
}

impl PacketView {
    /// Number, phase and direction of the packet.
    pub open spec fn id(self) -> Id {
        match self {
            PacketView::Handshake { .. } => Id {
                id: 0,
                state: State::Handshaking,
                direction: PacketDirection::ServerBound,
            },
            PacketView::StatusRequest => Id {
                id: 0,
                state: State::Status,
                direction: PacketDirection::ServerBound,
            },
            PacketView::StatusResponse { .. } => Id {
                id: 0,
                state: State::Status,
                direction: PacketDirection::ClientBound,
            },
            PacketView::PingRequest { .. } => Id {
                id: 1,
                state: State::Status,
                direction: PacketDirection::ServerBound,
            },
            PacketView::PingResponse { .. } => Id {
                id: 1,
                state: State::Status,
                direction: PacketDirection::ClientBound,
            },
            PacketView::LoginStart { .. } => Id {
                id: 0,
                state: State::Login,
                direction: PacketDirection::ServerBound,
            },
            PacketView::LoginEncryptionRequest { .. } => Id {
                id: 1,
                state: State::Login,
                direction: PacketDirection::ClientBound,
            },
            PacketView::LoginEncryptionResponse { .. } => Id {
                id: 1,
                state: State::Login,
                direction: PacketDirection::ServerBound,
            },
            PacketView::LoginSuccess { .. } => Id {
                id: 2,
                state: State::Login,
                direction: PacketDirection::ClientBound,
            },
            PacketView::LoginAcknowledged => Id {
                id: 3,
                state: State::Login,
                direction: PacketDirection::ServerBound,
            },
            PacketView::ConfigurationClientInformation { .. } => Id {
                id: 0,
                state: State::Configuration,
                direction: PacketDirection::ServerBound,
            },
            PacketView::ServerBoundPluginMessage { .. } => Id {
                id: 2,
                state: State::Configuration,
                direction: PacketDirection::ServerBound,
            },
            PacketView::ConfigurationFinish => Id {
                id: 3,
                state: State::Configuration,
                direction: PacketDirection::ClientBound,
            },
            PacketView::ConfigurationFinishAck => Id {
                id: 3,
                state: State::Configuration,
                direction: PacketDirection::ServerBound,
            },
        }
    }

    /// The fields of the packet as they follow its number on the wire.
    pub open spec fn body(self) -> Seq<u8> {
        match self {
            PacketView::PingRequest { payload } => ser_u64(payload),
            PacketView::PingResponse { payload } => ser_u64(payload),
            PacketView::Handshake { protocol_version, server_address, server_port, intent } => {
                ser_varint(protocol_version) + ser_string(server_address) + ser_u16(server_port)
                    + seq![intent.code()]
            },
            PacketView::StatusRequest => Seq::<u8>::empty(),
            PacketView::StatusResponse { status } => ser_bytes(json_status(status)),
            PacketView::LoginStart { name, uuid } => ser_string(name) + ser_u128(uuid),
            PacketView::LoginEncryptionRequest {
                server_id,
                public_key,
                verify_token,
                should_authenticate,
            } => ser_string(server_id) + ser_bytes(public_key) + ser_bytes(verify_token)
                + ser_bool(should_authenticate),
            PacketView::LoginEncryptionResponse { shared_secret, verify_token } => ser_bytes(
                shared_secret,
            ) + ser_bytes(verify_token),
            PacketView::LoginSuccess { uuid, username, properties } => ser_u128(uuid)
                + ser_string(username) + ser_varint(properties.len() as i32) + ser_properties(
                properties,
            ),
            PacketView::LoginAcknowledged => Seq::<u8>::empty(),
            PacketView::ConfigurationClientInformation {
                locale,
                view_distance,
                chat_mode,
                chat_colours,
                display_skin_parts,
                main_hand,
                text_filtering,
                allow_list_players,
                particle_status,
            } => ser_string(locale) + seq![view_distance] + seq![chat_mode.code()] + ser_bool(
                chat_colours,
            ) + seq![display_skin_parts] + seq![main_hand.code()] + ser_bool(text_filtering)
                + ser_bool(allow_list_players) + seq![particle_status.code()],
            PacketView::ServerBoundPluginMessage { id, data } => ser_string(id) + data,
            PacketView::ConfigurationFinish => Seq::<u8>::empty(),
            PacketView::ConfigurationFinishAck => Seq::<u8>::empty(),
        }
    }

    /// Whether every count of the packet can be announced: no text, byte
    /// string or list is longer than a count can say.
    pub open spec fn fits(self) -> bool {
        match self {
            PacketView::Handshake { server_address, .. } => encode_utf8(server_address).len()
                <= MAX_FIELD_LEN,
            PacketView::StatusResponse { status } => json_status(status).len() <= MAX_FIELD_LEN,
            PacketView::LoginStart { name, .. } => encode_utf8(name).len() <= MAX_FIELD_LEN,
            PacketView::LoginEncryptionRequest { server_id, public_key, verify_token, .. } => {
                &&& encode_utf8(server_id).len() <= MAX_FIELD_LEN
                &&& public_key.len() <= MAX_FIELD_LEN
                &&& verify_token.len() <= MAX_FIELD_LEN
            },
            PacketView::LoginEncryptionResponse { shared_secret, verify_token } => {
                &&& shared_secret.len() <= MAX_FIELD_LEN
                &&& verify_token.len() <= MAX_FIELD_LEN
            },
            PacketView::LoginSuccess { username, properties, .. } => {
                &&& encode_utf8(username).len() <= MAX_FIELD_LEN
                &&& properties.len() <= MAX_FIELD_LEN
                &&& forall|i: int| 0 <= i < properties.len() ==> property_fits(#[trigger] properties[i])
            },
            PacketView::ConfigurationClientInformation { locale, .. } => encode_utf8(locale).len()
                <= MAX_FIELD_LEN,
            PacketView::ServerBoundPluginMessage { id, .. } => encode_utf8(id).len()
                <= MAX_FIELD_LEN,
            _ => true,
        }
    }
}

fn write_properties(props: &Vec<LoginSuccessProperty>, out: &mut Vec<u8>) -> (r: Result<
    (),
    SerializeErr,
>)
    ensures
        r is Ok <==> forall|i: int|
            0 <= i < props@.len() ==> property_fits(#[trigger] properties_view(props@)[i]),
        r is Ok ==> final(out)@ == old(out)@ + ser_properties(properties_view(props@)),
        r is Err ==> r == Err::<(), SerializeErr>(SerializeErr::LengthTooLarge),
{
    let ghost before = out@;
    let ghost views = properties_view(props@);
    let mut i: usize = 0;
    assert(out@ =~= before + ser_properties(views.take(0)));
    while i < props.len()
        invariant
            i <= props@.len(),
            views == properties_view(props@),
            out@ == before + ser_properties(views.take(i as int)),
            forall|j: int| 0 <= j < i ==> property_fits(#[trigger] views[j]),
        decreases props@.len() - i,
    {
        let ghost acc = ser_properties(views.take(i as int));
        assert(views.take(i + 1).drop_last() =~= views.take(i as int));
        assert(views.take(i + 1).last() == props@[i as int]@);
        match props[i].mc_serialize(out) {
            Ok(()) => {},
            Err(e) => {
                assert(!property_fits(views[i as int]));
                return Err(e);
            },
        }
        proof {
            lemma_append_step(before, acc, ser_property(props@[i as int]@));
        }
        i = i + 1;
    }
    assert(views.take(i as int) =~= views);
    Ok(())
}

fn encode_handshake(s: &HandshakeSpec, out: &mut Vec<u8>) -> (r: Result<(), SerializeErr>)
    ensures
        r is Ok <==> Packet772::Handshake(*s)@.fits(),
        r is Ok ==> final(out)@ == old(out)@ + Packet772::Handshake(*s)@.body(),
        r is Err ==> r == Err::<(), SerializeErr>(SerializeErr::LengthTooLarge),
{
    let ghost before = out@;
    write_varint(s.protocol_version.0 as u32, out);
    let ghost mut acc = ser_varint(s.protocol_version.0);
    assert(out@ =~= before + acc);
    match write_string(s.server_address.as_str(), out) {
        Ok(()) => {},
        Err(e) => { return Err(e); },
    }
    proof {
        lemma_append_step(before, acc, ser_string(s.server_address@));
        acc = acc + ser_string(s.server_address@);
    }
    write_u16(s.server_port, out);
    proof {
        lemma_append_step(before, acc, ser_u16(s.server_port));
        acc = acc + ser_u16(s.server_port);
    }
    write_u8(s.intent.to_u8(), out);
    proof {
        lemma_append_step(before, acc, seq![s.intent.code()]);
        acc = acc + seq![s.intent.code()];
    }
    Ok(())
}

fn encode_login_start(s: &LoginStartSpec, out: &mut Vec<u8>) -> (r: Result<(), SerializeErr>)
    ensures
        r is Ok <==> Packet772::LoginStart(*s)@.fits(),
        r is Ok ==> final(out)@ == old(out)@ + Packet772::LoginStart(*s)@.body(),
        r is Err ==> r == Err::<(), SerializeErr>(SerializeErr::LengthTooLarge),
{
    let ghost before = out@;
    match write_string(s.name.as_str(), out) {
        Ok(()) => {},
        Err(e) => { return Err(e); },
    }
    let ghost mut acc = ser_string(s.name@);
    assert(out@ =~= before + acc);
    write_u128(s.uuid.raw, out);
    proof {
        lemma_append_step(before, acc, ser_u128(s.uuid.raw));
        acc = acc + ser_u128(s.uuid.raw);
    }
    Ok(())
}

fn encode_encryption_request(s: &LoginEncryptionRequestSpec, out: &mut Vec<u8>) -> (r: Result<(), SerializeErr>)
    ensures
        r is Ok <==> Packet772::LoginEncryptionRequest(*s)@.fits(),
        r is Ok ==> final(out)@ == old(out)@ + Packet772::LoginEncryptionRequest(*s)@.body(),
        r is Err ==> r == Err::<(), SerializeErr>(SerializeErr::LengthTooLarge),
{
    let ghost before = out@;
    match write_string(s.server_id.as_str(), out) {
        Ok(()) => {},
        Err(e) => { return Err(e); },
    }
    let ghost mut acc = ser_string(s.server_id@);
    assert(out@ =~= before + acc);
    match write_bytes(s.public_key.as_slice(), out) {
        Ok(()) => {},
        Err(e) => { return Err(e); },
    }
    proof {
        lemma_append_step(before, acc, ser_bytes(s.public_key@));
        acc = acc + ser_bytes(s.public_key@);
    }
    match write_bytes(s.verify_token.as_slice(), out) {
        Ok(()) => {},
        Err(e) => { return Err(e); },
    }
    proof {
        lemma_append_step(before, acc, ser_bytes(s.verify_token@));
        acc = acc + ser_bytes(s.verify_token@);
    }
    write_bool(s.should_authenticate, out);
    proof {
        lemma_append_step(before, acc, ser_bool(s.should_authenticate));
        acc = acc + ser_bool(s.should_authenticate);
    }
    Ok(())
}

fn encode_encryption_response(s: &LoginEncryptionResponseSpec, out: &mut Vec<u8>) -> (r: Result<(), SerializeErr>)
    ensures
        r is Ok <==> Packet772::LoginEncryptionResponse(*s)@.fits(),
        r is Ok ==> final(out)@ == old(out)@ + Packet772::LoginEncryptionResponse(*s)@.body(),
        r is Err ==> r == Err::<(), SerializeErr>(SerializeErr::LengthTooLarge),
{
    let ghost before = out@;
    match write_bytes(s.shared_secret.as_slice(), out) {
        Ok(()) => {},
        Err(e) => { return Err(e); },
    }
    let ghost mut acc = ser_bytes(s.shared_secret@);
    assert(out@ =~= before + acc);
    match write_bytes(s.verify_token.as_slice(), out) {
        Ok(()) => {},
        Err(e) => { return Err(e); },
    }
    proof {
        lemma_append_step(before, acc, ser_bytes(s.verify_token@));
        acc = acc + ser_bytes(s.verify_token@);
    }
    Ok(())
}

fn encode_client_information(s: &ConfigurationClientInformationSpec, out: &mut Vec<u8>) -> (r: Result<(), SerializeErr>)
    ensures
        r is Ok <==> Packet772::ConfigurationClientInformation(*s)@.fits(),
        r is Ok ==> final(out)@ == old(out)@ + Packet772::ConfigurationClientInformation(*s)@.body(),
        r is Err ==> r == Err::<(), SerializeErr>(SerializeErr::LengthTooLarge),
{
    let ghost before = out@;
    match write_string(s.locale.as_str(), out) {
        Ok(()) => {},
        Err(e) => { return Err(e); },
    }
    let ghost mut acc = ser_string(s.locale@);
    assert(out@ =~= before + acc);
    write_u8(s.view_distance, out);
    proof {
        lemma_append_step(before, acc, seq![s.view_distance]);
        acc = acc + seq![s.view_distance];
    }
    write_u8(s.chat_mode.to_u8(), out);
    proof {
        lemma_append_step(before, acc, seq![s.chat_mode.code()]);
        acc = acc + seq![s.chat_mode.code()];
    }
    write_bool(s.chat_colours, out);
    proof {
        lemma_append_step(before, acc, ser_bool(s.chat_colours));
        acc = acc + ser_bool(s.chat_colours);
    }
    write_u8(s.display_skin_parts, out);
    proof {
        lemma_append_step(before, acc, seq![s.display_skin_parts]);
        acc = acc + seq![s.display_skin_parts];
    }
    write_u8(s.main_hand.to_u8(), out);
    proof {
        lemma_append_step(before, acc, seq![s.main_hand.code()]);
        acc = acc + seq![s.main_hand.code()];
    }
    write_bool(s.text_filtering, out);
    proof {
        lemma_append_step(before, acc, ser_bool(s.text_filtering));
        acc = acc + ser_bool(s.text_filtering);
    }
    write_bool(s.allow_list_players, out);
    proof {
        lemma_append_step(before, acc, ser_bool(s.allow_list_players));
        acc = acc + ser_bool(s.allow_list_players);
    }
    write_u8(s.particle_status.to_u8(), out);
    proof {
        lemma_append_step(before, acc, seq![s.particle_status.code()]);
        acc = acc + seq![s.particle_status.code()];
    }
    Ok(())
}

fn encode_plugin_message(s: &ServerBoundPluginMessageSpec, out: &mut Vec<u8>) -> (r: Result<(), SerializeErr>)
    ensures
        r is Ok <==> Packet772::ServerBoundPluginMessage(*s)@.fits(),
        r is Ok ==> final(out)@ == old(out)@ + Packet772::ServerBoundPluginMessage(*s)@.body(),
        r is Err ==> r == Err::<(), SerializeErr>(SerializeErr::LengthTooLarge),
{
    let ghost before = out@;
    match write_string(s.id.as_str(), out) {
        Ok(()) => {},
        Err(e) => { return Err(e); },
    }
    let ghost mut acc = ser_string(s.id@);
    assert(out@ =~= before + acc);
    append_bytes(out, s.data.as_slice());
    proof {
        lemma_append_step(before, acc, s.data@);
        acc = acc + s.data@;
    }
    Ok(())
}

fn encode_login_success(s: &LoginSuccessSpec, out: &mut Vec<u8>) -> (r: Result<(), SerializeErr>)
    ensures
        r is Ok <==> Packet772::LoginSuccess(*s)@.fits(),
        r is Ok ==> final(out)@ == old(out)@ + Packet772::LoginSuccess(*s)@.body(),
        r is Err ==> r == Err::<(), SerializeErr>(SerializeErr::LengthTooLarge),
{
    let ghost before = out@;
    let ghost views = properties_view(s.properties@);
    write_u128(s.uuid.raw, out);
    let ghost mut acc = ser_u128(s.uuid.raw);
    assert(out@ =~= before + acc);
    match write_string(s.username.as_str(), out) {
        Ok(()) => {},
        Err(e) => { return Err(e); },
    }
    proof {
        lemma_append_step(before, acc, ser_string(s.username@));
        acc = acc + ser_string(s.username@);
    }
    if s.properties.len() > MAX_FIELD_LEN {
        return Err(SerializeErr::LengthTooLarge);
    }
    write_varint(s.properties.len() as u32, out);
    proof {
        lemma_append_step(before, acc, ser_varint(views.len() as i32));
        acc = acc + ser_varint(views.len() as i32);
    }
    match write_properties(&s.properties, out) {
        Ok(()) => {},
        Err(e) => { return Err(e); },
    }
    proof {
        lemma_append_step(before, acc, ser_properties(views));
    }
    Ok(())
}

impl Packet772 {
    /// Number, phase and direction of the packet.
    pub fn id(&self) -> (r: Id)
        ensures
            r == self@.id(),
    {
        match self {
            Packet772::Handshake(_) => Id {
                id: 0,
                state: State::Handshaking,
                direction: PacketDirection::ServerBound,
            },
            Packet772::StatusRequest(_) => Id {
                id: 0,
                state: State::Status,
                direction: PacketDirection::ServerBound,
            },
            Packet772::StatusResponse(_) => Id {
                id: 0,
                state: State::Status,
                direction: PacketDirection::ClientBound,
            },
            Packet772::PingRequest(_) => Id {
                id: 1,
                state: State::Status,
                direction: PacketDirection::ServerBound,
            },
            Packet772::PingResponse(_) => Id {
                id: 1,
                state: State::Status,
                direction: PacketDirection::ClientBound,
            },
            Packet772::LoginStart(_) => Id {
                id: 0,
                state: State::Login,
                direction: PacketDirection::ServerBound,
            },
            Packet772::LoginEncryptionRequest(_) => Id {
                id: 1,
                state: State::Login,
                direction: PacketDirection::ClientBound,
            },
            Packet772::LoginEncryptionResponse(_) => Id {
                id: 1,
                state: State::Login,
                direction: PacketDirection::ServerBound,
            },
            Packet772::LoginSuccess(_) => Id {
                id: 2,
                state: State::Login,
                direction: PacketDirection::ClientBound,
            },
            Packet772::LoginAcknowledged(_) => Id {
                id: 3,
                state: State::Login,
                direction: PacketDirection::ServerBound,
            },
            Packet772::ConfigurationClientInformation(_) => Id {
                id: 0,
                state: State::Configuration,
                direction: PacketDirection::ServerBound,
            },
            Packet772::ServerBoundPluginMessage(_) => Id {
                id: 2,
                state: State::Configuration,
                direction: PacketDirection::ServerBound,
            },
            Packet772::ConfigurationFinish(_) => Id {
                id: 3,
                state: State::Configuration,
                direction: PacketDirection::ClientBound,
            },
            Packet772::ConfigurationFinishAck(_) => Id {
                id: 3,
                state: State::Configuration,
                direction: PacketDirection::ServerBound,
            },
        }
    }

    /// The fields of the packet as bytes, where every count can be
    /// announced.
    pub fn body_bytes(&self) -> (r: Result<Vec<u8>, SerializeErr>)
        ensures
            r is Ok <==> self@.fits(),
            r matches Ok(bytes) ==> bytes@ == self@.body(),
            r matches Err(e) ==> e == SerializeErr::LengthTooLarge,
    {
        let mut out: Vec<u8> = Vec::new();
        let done = match self {
            Packet772::PingRequest(s) => {
                write_u64(s.payload, &mut out);
                Ok(())
            },
            Packet772::PingResponse(s) => {
                write_u64(s.payload, &mut out);
                Ok(())
            },
            Packet772::Handshake(s) => encode_handshake(s, &mut out),
            Packet772::StatusRequest(_) => Ok(()),
            Packet772::StatusResponse(s) => {
                let json = s.response.to_json();
                write_bytes(json.as_slice(), &mut out)
            },
            Packet772::LoginStart(s) => encode_login_start(s, &mut out),
            Packet772::LoginEncryptionRequest(s) => encode_encryption_request(s, &mut out),
            Packet772::LoginEncryptionResponse(s) => encode_encryption_response(s, &mut out),
            Packet772::LoginSuccess(s) => encode_login_success(s, &mut out),
            Packet772::LoginAcknowledged(_) => Ok(()),
            Packet772::ConfigurationClientInformation(s) => encode_client_information(
                s,
                &mut out,
            ),
            Packet772::ServerBoundPluginMessage(s) => encode_plugin_message(s, &mut out),
            Packet772::ConfigurationFinish(_) => Ok(()),
            Packet772::ConfigurationFinishAck(_) => Ok(()),
        };
        match done {
            Ok(()) => {
                assert(out@ =~= self@.body());
                Ok(out)
            },
            Err(e) => Err(e),
        }
    }

    /// Writes the fields of the packet behind what `to` holds, or nothing
    /// where they cannot be written.
    pub fn mc_serialize_body(&self, to: &mut SliceSerializer) -> (r: Result<(), SerializeErr>)
        requires
            old(to).wf(),
        ensures
            final(to).wf(),
            final(to).capacity() == old(to).capacity(),
            r is Ok <==> self@.fits() && old(to).written().len() + self@.body().len() < old(to).capacity(),
            r is Ok ==> final(to).written() == old(to).written() + self@.body(),
            r is Err ==> final(to).written() == old(to).written(),
            r matches Err(e) ==> (e == SerializeErr::LengthTooLarge <==> !self@.fits()),
            r matches Err(e) ==> (e == SerializeErr::BufferFull <==> self@.fits()),
    {
        let body = match self.body_bytes() {
            Ok(b) => b,
            Err(e) => { return Err(e); },
        };
        to.serialize_bytes(body.as_slice())
    }
}

impl Id {
    /// Writes the number of the packet behind what `to` holds, or nothing
    /// where it does not fit.
    pub fn mc_serialize(&self, to: &mut SliceSerializer) -> (r: Result<(), SerializeErr>)
        requires
            old(to).wf(),
        ensures
            final(to).wf(),
            final(to).capacity() == old(to).capacity(),
            r is Ok <==> old(to).written().len() + ser_varint(self.id).len() < old(to).capacity(),
            r is Ok ==> final(to).written() == old(to).written() + ser_varint(self.id),
            r is Err ==> r == Err::<(), SerializeErr>(SerializeErr::BufferFull) && final(to).written() == old(to).written(),
    {
        let bytes = encode_varint(self.id as u32);
        to.serialize_bytes(bytes.as_slice())
    }
}

/// What a field that stands for one of a few choices reads as.
pub open spec fn spec_read_intent(data: Seq<u8>, pos: int) -> Result<
    (HandshakeIntent, int),
    DeserializeErr,
> {
    match spec_read_u8(data, pos) {
        Err(e) => Err(e),
        Ok((b, next)) => match HandshakeIntent::spec_from_u8(b) {
            Some(v) => Ok((v, next)),
            None => Err(DeserializeErr::CannotUnderstandValue),
        },
    }
}

/// One byte that stands for a chat mode.
pub open spec fn spec_read_chat_mode(data: Seq<u8>, pos: int) -> Result<
    (ChatMode, int),
    DeserializeErr,
> {
    match spec_read_u8(data, pos) {
        Err(e) => Err(e),
        Ok((b, next)) => match ChatMode::spec_from_u8(b) {
            Some(v) => Ok((v, next)),
            None => Err(DeserializeErr::CannotUnderstandValue),
        },
    }
}

/// One byte that stands for a hand.
pub open spec fn spec_read_main_hand(data: Seq<u8>, pos: int) -> Result<
    (MainHand, int),
    DeserializeErr,
> {
    match spec_read_u8(data, pos) {
        Err(e) => Err(e),
        Ok((b, next)) => match MainHand::spec_from_u8(b) {
            Some(v) => Ok((v, next)),
            None => Err(DeserializeErr::CannotUnderstandValue),
        },
    }
}

/// One byte that stands for a particle setting.
pub open spec fn spec_read_particles(data: Seq<u8>, pos: int) -> Result<
    (ParticleStatus, int),
    DeserializeErr,
> {
    match spec_read_u8(data, pos) {
        Err(e) => Err(e),
        Ok((b, next)) => match ParticleStatus::spec_from_u8(b) {
            Some(v) => Ok((v, next)),
            None => Err(DeserializeErr::CannotUnderstandValue),
        },
    }
}

fn read_intent(data: &[u8], pos: usize) -> (r: Result<(HandshakeIntent, usize), DeserializeErr>)
    ensures
        match spec_read_intent(data@, pos as int) {
            Ok((v, next)) => r matches Ok((rv, rnext)) && rv == v && rnext == next && next
                <= data@.len(),
            Err(e) => r matches Err(re) && re == e,
        },
{
    let (b, next) = match read_u8(data, pos) {
        Ok(x) => x,
        Err(e) => { return Err(e); },
    };
    match HandshakeIntent::from_u8(b) {
        Some(v) => Ok((v, next)),
        None => Err(DeserializeErr::CannotUnderstandValue),
    }
}

fn read_chat_mode(data: &[u8], pos: usize) -> (r: Result<(ChatMode, usize), DeserializeErr>)
    ensures
        match spec_read_chat_mode(data@, pos as int) {
            Ok((v, next)) => r matches Ok((rv, rnext)) && rv == v && rnext == next && next
                <= data@.len(),
            Err(e) => r matches Err(re) && re == e,
        },
{
    let (b, next) = match read_u8(data, pos) {
        Ok(x) => x,
        Err(e) => { return Err(e); },
    };
    match ChatMode::from_u8(b) {
        Some(v) => Ok((v, next)),
        None => Err(DeserializeErr::CannotUnderstandValue),
    }
}

fn read_main_hand(data: &[u8], pos: usize) -> (r: Result<(MainHand, usize), DeserializeErr>)
    ensures
        match spec_read_main_hand(data@, pos as int) {
            Ok((v, next)) => r matches Ok((rv, rnext)) && rv == v && rnext == next && next
                <= data@.len(),
            Err(e) => r matches Err(re) && re == e,
        },
{
    let (b, next) = match read_u8(data, pos) {
        Ok(x) => x,
        Err(e) => { return Err(e); },
    };
    match MainHand::from_u8(b) {
        Some(v) => Ok((v, next)),
        None => Err(DeserializeErr::CannotUnderstandValue),
    }
}

fn read_particles(data: &[u8], pos: usize) -> (r: Result<(ParticleStatus, usize), DeserializeErr>)
    ensures
        match spec_read_particles(data@, pos as int) {
            Ok((v, next)) => r matches Ok((rv, rnext)) && rv == v && rnext == next && next
                <= data@.len(),
            Err(e) => r matches Err(re) && re == e,
        },
{
    let (b, next) = match read_u8(data, pos) {
        Ok(x) => x,
        Err(e) => { return Err(e); },
    };
    match ParticleStatus::from_u8(b) {
        Some(v) => Ok((v, next)),
        None => Err(DeserializeErr::CannotUnderstandValue),
    }
}

/// The fields of a handshake at the front of `data`, and where they end.
pub open spec fn spec_parse_handshake(data: Seq<u8>) -> Result<(PacketView, int), DeserializeErr> {
    match spec_read_varint(data, 0) {
        Err(e) => Err(e),
        Ok((protocol_version, at1)) => match spec_read_string(data, at1) {
            Err(e) => Err(e),
            Ok((server_address, at2)) => match spec_read_u16(data, at2) {
                Err(e) => Err(e),
                Ok((server_port, at3)) => match spec_read_intent(data, at3) {
                    Err(e) => Err(e),
                    Ok((intent, at4)) => Ok(
                        (
                            PacketView::Handshake {
                                protocol_version,
                                server_address,
                                server_port,
                                intent,
                            },
                            at4,
                        ),
                    ),
                },
            },
        },
    }
}

/// The field of a ping at the front of `data`, and where it ends.
pub open spec fn spec_parse_ping_request(data: Seq<u8>) -> Result<
    (PacketView, int),
    DeserializeErr,
> {
    match spec_read_u64(data, 0) {
        Err(e) => Err(e),
        Ok((payload, at1)) => Ok((PacketView::PingRequest { payload }, at1)),
    }
}

/// The fields of a login start at the front of `data`, and where they end.
pub open spec fn spec_parse_login_start(data: Seq<u8>) -> Result<
    (PacketView, int),
    DeserializeErr,
> {
    match spec_read_string(data, 0) {
        Err(e) => Err(e),
        Ok((name, at1)) => match spec_read_u128(data, at1) {
            Err(e) => Err(e),
            Ok((uuid, at2)) => Ok((PacketView::LoginStart { name, uuid }, at2)),
        },
    }
}

/// The fields of an encryption response at the front of `data`, and where
/// they end.
pub open spec fn spec_parse_encryption_response(data: Seq<u8>) -> Result<
    (PacketView, int),
    DeserializeErr,
> {
    match spec_read_bytes(data, 0) {
        Err(e) => Err(e),
        Ok((shared_secret, at1)) => match spec_read_bytes(data, at1) {
            Err(e) => Err(e),
            Ok((verify_token, at2)) => Ok(
                (PacketView::LoginEncryptionResponse { shared_secret, verify_token }, at2),
            ),
        },
    }
}

/// The settings of a client at the front of `data`, and where they end.
pub open spec fn spec_parse_client_information(data: Seq<u8>) -> Result<
    (PacketView, int),
    DeserializeErr,
> {
    match spec_read_string(data, 0) {
        Err(e) => Err(e),
        Ok((locale, at1)) => match spec_read_u8(data, at1) {
            Err(e) => Err(e),
            Ok((view_distance, at2)) => match spec_read_chat_mode(data, at2) {
                Err(e) => Err(e),
                Ok((chat_mode, at3)) => match spec_read_bool(data, at3) {
                    Err(e) => Err(e),
                    Ok((chat_colours, at4)) => match spec_read_u8(data, at4) {
                        Err(e) => Err(e),
                        Ok((display_skin_parts, at5)) => match spec_read_main_hand(data, at5) {
                            Err(e) => Err(e),
                            Ok((main_hand, at6)) => match spec_read_bool(data, at6) {
                                Err(e) => Err(e),
                                Ok((text_filtering, at7)) => match spec_read_bool(data, at7) {
                                    Err(e) => Err(e),
                                    Ok((allow_list_players, at8)) => match spec_read_particles(
                                        data,
                                        at8,
                                    ) {
                                        Err(e) => Err(e),
                                        Ok((particle_status, at9)) => Ok(
                                            (
                                                PacketView::ConfigurationClientInformation {
                                                    locale,
                                                    view_distance,
                                                    chat_mode,
                                                    chat_colours,
                                                    display_skin_parts,
                                                    main_hand,
                                                    text_filtering,
                                                    allow_list_players,
                                                    particle_status,
                                                },
                                                at9,
                                            ),
                                        ),
                                    },
                                },
                            },
                        },
                    },
                },
            },
        },
    }
}

/// The channel of a plugin message, and the rest of `data` as what it
/// carries.
pub open spec fn spec_parse_plugin_message(data: Seq<u8>) -> Result<
    (PacketView, int),
    DeserializeErr,
> {
    match spec_read_string(data, 0) {
        Err(e) => Err(e),
        Ok((id, at1)) => Ok(
            (PacketView::ServerBoundPluginMessage { id, data: data.skip(at1) }, data.len() as int),
        ),
    }
}

/// Whether a server reads packets with this identifier.
pub open spec fn known_id(id: Id) -> bool {
    id.direction == PacketDirection::ServerBound && match id.state {
        State::Handshaking => id.id == 0,
        State::Status => id.id == 0 || id.id == 1,
        State::Login => id.id == 0 || id.id == 1 || id.id == 3,
        State::Configuration => id.id == 0 || id.id == 2 || id.id == 3,
        State::Play => false,
    }
}

/// The fields that a body with this identifier starts with, and where
/// they end. Only meant for identifiers that a server reads.
pub open spec fn spec_parse_fields(id: Id, data: Seq<u8>) -> Result<
    (PacketView, int),
    DeserializeErr,
> {
    match id.state {
        State::Handshaking => spec_parse_handshake(data),
        State::Status => if id.id == 0 {
            Ok((PacketView::StatusRequest, 0))
        } else {
            spec_parse_ping_request(data)
        },
        State::Login => if id.id == 0 {
            spec_parse_login_start(data)
        } else if id.id == 1 {
            spec_parse_encryption_response(data)
        } else {
            Ok((PacketView::LoginAcknowledged, 0))
        },
        _ => if id.id == 0 {
            spec_parse_client_information(data)
        } else if id.id == 2 {
            spec_parse_plugin_message(data)
        } else {
            Ok((PacketView::ConfigurationFinishAck, 0))
        },
    }
}

/// The packet that a body with this identifier stands for. The body has to
/// be used up by the fields: bytes that are missing and bytes that are
/// left over both give an error.
pub open spec fn spec_deserialize(id: Id, data: Seq<u8>) -> Result<PacketView, PacketErr> {
    if !known_id(id) {
        Err(PacketErr::UnknownId(id))
    } else {
        match spec_parse_fields(id, data) {
            Err(e) => Err(PacketErr::DeserializeFailed(e)),
            Ok((packet, end)) => if end < data.len() {
                Err(PacketErr::ExtraData((data.len() - end) as usize))
            } else {
                Ok(packet)
            },
        }
    }
}

fn parse_handshake(data: &[u8]) -> (r: Result<(Packet772, usize), DeserializeErr>)
    ensures
        match spec_parse_handshake(data@) {
            Ok((v, end)) => r matches Ok((p, rend)) && p@ == v && rend == end && end <= data@.len(),
            Err(e) => r matches Err(re) && re == e,
        },
{
    let (protocol_version, at1) = match read_varint(data, 0) {
        Ok(x) => x,
        Err(e) => { return Err(e); },
    };
    let (server_address, at2) = match read_string(data, at1) {
        Ok(x) => x,
        Err(e) => { return Err(e); },
    };
    let (server_port, at3) = match read_u16(data, at2) {
        Ok(x) => x,
        Err(e) => { return Err(e); },
    };
    let (intent, at4) = match read_intent(data, at3) {
        Ok(x) => x,
        Err(e) => { return Err(e); },
    };
    Ok(
        (
            Packet772::Handshake(
                HandshakeSpec {
                    protocol_version: VarInt(protocol_version),
                    server_address,
                    server_port,
                    intent,
                },
            ),
            at4,
        ),
    )
}

fn parse_ping_request(data: &[u8]) -> (r: Result<(Packet772, usize), DeserializeErr>)
    ensures
        match spec_parse_ping_request(data@) {
            Ok((v, end)) => r matches Ok((p, rend)) && p@ == v && rend == end && end <= data@.len(),
            Err(e) => r matches Err(re) && re == e,
        },
{
    match read_u64(data, 0) {
        Ok((payload, at1)) => Ok((Packet772::PingRequest(PingRequestSpec { payload }), at1)),
        Err(e) => Err(e),
    }
}

fn parse_login_start(data: &[u8]) -> (r: Result<(Packet772, usize), DeserializeErr>)
    ensures
        match spec_parse_login_start(data@) {
            Ok((v, end)) => r matches Ok((p, rend)) && p@ == v && rend == end && end <= data@.len(),
            Err(e) => r matches Err(re) && re == e,
        },
{
    let (name, at1) = match read_string(data, 0) {
        Ok(x) => x,
        Err(e) => { return Err(e); },
    };
    let (raw, at2) = match read_u128(data, at1) {
        Ok(x) => x,
        Err(e) => { return Err(e); },
    };
    Ok((Packet772::LoginStart(LoginStartSpec { name, uuid: UUID4 { raw } }), at2))
}

fn parse_encryption_response(data: &[u8]) -> (r: Result<(Packet772, usize), DeserializeErr>)
    ensures
        match spec_parse_encryption_response(data@) {
            Ok((v, end)) => r matches Ok((p, rend)) && p@ == v && rend == end && end <= data@.len(),
            Err(e) => r matches Err(re) && re == e,
        },
{
    let (shared_secret, at1) = match read_bytes(data, 0) {
        Ok(x) => x,
        Err(e) => { return Err(e); },
    };
    let (verify_token, at2) = match read_bytes(data, at1) {
        Ok(x) => x,
        Err(e) => { return Err(e); },
    };
    Ok(
        (
            Packet772::LoginEncryptionResponse(
                LoginEncryptionResponseSpec { shared_secret, verify_token },
            ),
            at2,
        ),
    )
}

fn parse_client_information(data: &[u8]) -> (r: Result<(Packet772, usize), DeserializeErr>)
    ensures
        match spec_parse_client_information(data@) {
            Ok((v, end)) => r matches Ok((p, rend)) && p@ == v && rend == end && end <= data@.len(),
            Err(e) => r matches Err(re) && re == e,
        },
{
    let (locale, at1) = match read_string(data, 0) {
        Ok(x) => x,
        Err(e) => { return Err(e); },
    };
    let (view_distance, at2) = match read_u8(data, at1) {
        Ok(x) => x,
        Err(e) => { return Err(e); },
    };
    let (chat_mode, at3) = match read_chat_mode(data, at2) {
        Ok(x) => x,
        Err(e) => { return Err(e); },
    };
    let (chat_colours, at4) = match read_bool(data, at3) {
        Ok(x) => x,
        Err(e) => { return Err(e); },
    };
    let (display_skin_parts, at5) = match read_u8(data, at4) {
        Ok(x) => x,
        Err(e) => { return Err(e); },
    };
    let (main_hand, at6) = match read_main_hand(data, at5) {
        Ok(x) => x,
        Err(e) => { return Err(e); },
    };
    let (text_filtering, at7) = match read_bool(data, at6) {
        Ok(x) => x,
        Err(e) => { return Err(e); },
    };
    let (allow_list_players, at8) = match read_bool(data, at7) {
        Ok(x) => x,
        Err(e) => { return Err(e); },
    };
    let (particle_status, at9) = match read_particles(data, at8) {
        Ok(x) => x,
        Err(e) => { return Err(e); },
    };
    Ok(
        (
            Packet772::ConfigurationClientInformation(
                ConfigurationClientInformationSpec {
                    locale,
                    view_distance,
                    chat_mode,
                    chat_colours,
                    display_skin_parts,
                    main_hand,
                    text_filtering,
                    allow_list_players,
                    particle_status,
                },
            ),
            at9,
        ),
    )
}

fn parse_plugin_message(data: &[u8]) -> (r: Result<(Packet772, usize), DeserializeErr>)
    ensures
        match spec_parse_plugin_message(data@) {
            Ok((v, end)) => r matches Ok((p, rend)) && p@ == v && rend == end && end <= data@.len(),
            Err(e) => r matches Err(re) && re == e,
        },
{
    let (id, at1) = match read_string(data, 0) {
        Ok(x) => x,
        Err(e) => { return Err(e); },
    };
    let rest = vstd::slice::slice_subrange(data, at1, data.len());
    assert(rest@ =~= data@.skip(at1 as int));
    let payload = vstd::slice::slice_to_vec(rest);
    Ok(
        (
            Packet772::ServerBoundPluginMessage(ServerBoundPluginMessageSpec { id, data: payload }),
            data.len(),
        ),
    )
}

/// The body of a frame behind its packet number, with what the number means
/// in the phase of the session.
#[derive(Clone, Copy, Debug)]
pub struct RawPacket772<'a> {
    pub id: Id,
    pub data: &'a [u8],
}

impl<'a> RawPacket772<'a> {
    /// A raw packet, where a server reads packets with this identifier.
    pub fn create(id: Id, data: &'a [u8]) -> (r: Result<Self, PacketErr>)
        ensures
            r is Ok <==> known_id(id),
            r matches Ok(raw) ==> raw.id == id && raw.data@ == data@,
            r matches Err(e) ==> e == PacketErr::UnknownId(id),
    {
        let known = match id.direction {
            PacketDirection::ClientBound => false,
            PacketDirection::ServerBound => match id.state {
                State::Handshaking => id.id == 0,
                State::Status => id.id == 0 || id.id == 1,
                State::Login => id.id == 0 || id.id == 1 || id.id == 3,
                State::Configuration => id.id == 0 || id.id == 2 || id.id == 3,
                State::Play => false,
            },
        };
        if known {
            Ok(RawPacket772 { id, data })
        } else {
            Err(PacketErr::UnknownId(id))
        }
    }

    /// Reads the packet out of the body.
    pub fn deserialize(&self) -> (r: Result<Packet772, PacketErr>)
        ensures
            match spec_deserialize(self.id, self.data@) {
                Ok(v) => r matches Ok(p) && p@ == v,
                Err(e) => r matches Err(re) && re == e,
            },
    {
        let id = self.id;
        let data = self.data;
        let checked = match RawPacket772::create(id, data) {
            Ok(raw) => raw,
            Err(e) => { return Err(e); },
        };
        let parsed = match id.state {
            State::Handshaking => parse_handshake(data),
            State::Status => if id.id == 0 {
                Ok((Packet772::StatusRequest(StatusRequestSpec {  }), 0))
            } else {
                parse_ping_request(data)
            },
            State::Login => if id.id == 0 {
                parse_login_start(data)
            } else if id.id == 1 {
                parse_encryption_response(data)
            } else {
                Ok((Packet772::LoginAcknowledged(LoginAcknowledgedSpec {  }), 0))
            },
            _ => if id.id == 0 {
                parse_client_information(data)
            } else if id.id == 2 {
                parse_plugin_message(data)
            } else {
                Ok((Packet772::ConfigurationFinishAck(ConfigurationFinishAckSpec {  }), 0))
            },
        };
        match parsed {
            Err(e) => Err(PacketErr::DeserializeFailed(e)),
            Ok((packet, end)) => if end < data.len() {
                Err(PacketErr::ExtraData(data.len() - end))
            } else {
                Ok(packet)
            },
        }
    }
}

proof fn lemma_handshake_round_trip(v: PacketView)
    requires
        v is Handshake,
        v.fits(),
    ensures
        spec_parse_handshake(v.body()) == Ok::<(PacketView, int), DeserializeErr>(
            (v, v.body().len() as int),
        ),
{
    let data = v.body();
    let pv = v->Handshake_protocol_version;
    let addr = v->Handshake_server_address;
    let port = v->Handshake_server_port;
    let intent = v->Handshake_intent;
    let f0 = ser_varint(pv);
    let at1 = 0 + f0.len();
    let f1 = ser_string(addr);
    let at2 = at1 + f1.len();
    let f2 = ser_u16(port);
    let at3 = at2 + f2.len();
    let f3 = seq![intent.code()];
    let at4 = at3 + f3.len();
    assert(data == f0 + f1 + f2 + f3);
    assert(data.subrange(0, at1 as int) =~= f0);
    lemma_read_varint_back(data, 0, pv);
    assert(data.subrange(at1 as int, at2 as int) =~= f1);
    lemma_read_string_back(data, at1 as int, addr);
    assert(data.subrange(at2 as int, at3 as int) =~= f2);
    lemma_read_u16_back(data, at2 as int, port);
    assert(data.subrange(at3 as int, at4 as int) =~= f3);
    lemma_read_u8_back(data, at3 as int, intent.code());
}

proof fn lemma_ping_request_round_trip(v: PacketView)
    requires
        v is PingRequest,
        v.fits(),
    ensures
        spec_parse_ping_request(v.body()) == Ok::<(PacketView, int), DeserializeErr>(
            (v, v.body().len() as int),
        ),
{
    let data = v.body();
    let payload = v->PingRequest_payload;
    let f0 = ser_u64(payload);
    let at1 = 0 + f0.len();
    assert(data == f0);
    assert(data.subrange(0, at1 as int) =~= f0);
    lemma_read_u64_back(data, 0, payload);
}

proof fn lemma_login_start_round_trip(v: PacketView)
    requires
        v is LoginStart,
        v.fits(),
    ensures
        spec_parse_login_start(v.body()) == Ok::<(PacketView, int), DeserializeErr>(
            (v, v.body().len() as int),
        ),
{
    let data = v.body();
    let name = v->LoginStart_name;
    let uuid = v->LoginStart_uuid;
    let f0 = ser_string(name);
    let at1 = 0 + f0.len();
    let f1 = ser_u128(uuid);
    let at2 = at1 + f1.len();
    assert(data == f0 + f1);
    assert(data.subrange(0, at1 as int) =~= f0);
    lemma_read_string_back(data, 0, name);
    assert(data.subrange(at1 as int, at2 as int) =~= f1);
    lemma_read_u128_back(data, at1 as int, uuid);
}

proof fn lemma_encryption_response_round_trip(v: PacketView)
    requires
        v is LoginEncryptionResponse,
        v.fits(),
    ensures
        spec_parse_encryption_response(v.body()) == Ok::<(PacketView, int), DeserializeErr>(
            (v, v.body().len() as int),
        ),
{
    let data = v.body();
    let secret = v->LoginEncryptionResponse_shared_secret;
    let token = v->LoginEncryptionResponse_verify_token;
    let f0 = ser_bytes(secret);
    let at1 = 0 + f0.len();
    let f1 = ser_bytes(token);
    let at2 = at1 + f1.len();
    assert(data == f0 + f1);
    assert(data.subrange(0, at1 as int) =~= f0);
    lemma_read_bytes_back(data, 0, secret);
    assert(data.subrange(at1 as int, at2 as int) =~= f1);
    lemma_read_bytes_back(data, at1 as int, token);
}

#[verifier::rlimit(100)]
proof fn lemma_client_information_round_trip(v: PacketView)
    requires
        v is ConfigurationClientInformation,
        v.fits(),
    ensures
        spec_parse_client_information(v.body()) == Ok::<(PacketView, int), DeserializeErr>(
            (v, v.body().len() as int),
        ),
{
    let data = v.body();
    let locale = v->ConfigurationClientInformation_locale;
    let view_distance = v->ConfigurationClientInformation_view_distance;
    let chat_mode = v->ConfigurationClientInformation_chat_mode;
    let chat_colours = v->ConfigurationClientInformation_chat_colours;
    let skin = v->ConfigurationClientInformation_display_skin_parts;
    let main_hand = v->ConfigurationClientInformation_main_hand;
    let text_filtering = v->ConfigurationClientInformation_text_filtering;
    let allow_list = v->ConfigurationClientInformation_allow_list_players;
    let particles = v->ConfigurationClientInformation_particle_status;
    let f0 = ser_string(locale);
    let at1 = 0 + f0.len();
    let f1 = seq![view_distance];
    let at2 = at1 + f1.len();
    let f2 = seq![chat_mode.code()];
    let at3 = at2 + f2.len();
    let f3 = ser_bool(chat_colours);
    let at4 = at3 + f3.len();
    let f4 = seq![skin];
    let at5 = at4 + f4.len();
    let f5 = seq![main_hand.code()];
    let at6 = at5 + f5.len();
    let f6 = ser_bool(text_filtering);
    let at7 = at6 + f6.len();
    let f7 = ser_bool(allow_list);
    let at8 = at7 + f7.len();
    let f8 = seq![particles.code()];
    let at9 = at8 + f8.len();
    assert(data == f0 + f1 + f2 + f3 + f4 + f5 + f6 + f7 + f8);
    assert(data.subrange(0, at1 as int) =~= f0);
    lemma_read_string_back(data, 0, locale);
    assert(data.subrange(at1 as int, at2 as int) =~= f1);
    lemma_read_u8_back(data, at1 as int, view_distance);
    assert(data.subrange(at2 as int, at3 as int) =~= f2);
    lemma_read_u8_back(data, at2 as int, chat_mode.code());
    assert(data.subrange(at3 as int, at4 as int) =~= f3);
    lemma_read_bool_back(data, at3 as int, chat_colours);
    assert(data.subrange(at4 as int, at5 as int) =~= f4);
    lemma_read_u8_back(data, at4 as int, skin);
    assert(data.subrange(at5 as int, at6 as int) =~= f5);
    lemma_read_u8_back(data, at5 as int, main_hand.code());
    assert(data.subrange(at6 as int, at7 as int) =~= f6);
    lemma_read_bool_back(data, at6 as int, text_filtering);
    assert(data.subrange(at7 as int, at8 as int) =~= f7);
    lemma_read_bool_back(data, at7 as int, allow_list);
    assert(data.subrange(at8 as int, at9 as int) =~= f8);
    lemma_read_u8_back(data, at8 as int, particles.code());
}
proof fn lemma_plugin_message_round_trip(v: PacketView)
    requires
        v is ServerBoundPluginMessage,
        v.fits(),
    ensures
        spec_parse_plugin_message(v.body()) == Ok::<(PacketView, int), DeserializeErr>(
            (v, v.body().len() as int),
        ),
{
    let data = v.body();
    let id = v->ServerBoundPluginMessage_id;
    let payload = v->ServerBoundPluginMessage_data;
    let f0 = ser_string(id);
    assert(data == f0 + payload);
    assert(data.subrange(0, f0.len() as int) =~= f0);
    lemma_read_string_back(data, 0, id);
    assert(data.skip(f0.len() as int) =~= payload);
}

/// What a client writes, the server reads: the body of a packet that
/// travels to the server, with every count that it holds small enough to
/// be announced, reads back as that packet.
pub proof fn lemma_packet_round_trip(v: PacketView)
    requires
        v.id().direction == PacketDirection::ServerBound,
        v.fits(),
    ensures
        spec_deserialize(v.id(), v.body()) == Ok::<PacketView, PacketErr>(v),
{
    match v {
        PacketView::Handshake { .. } => lemma_handshake_round_trip(v),
        PacketView::PingRequest { .. } => lemma_ping_request_round_trip(v),
        PacketView::LoginStart { .. } => lemma_login_start_round_trip(v),
        PacketView::LoginEncryptionResponse { .. } => lemma_encryption_response_round_trip(v),
        PacketView::ConfigurationClientInformation { .. } => lemma_client_information_round_trip(
            v,
        ),
        PacketView::ServerBoundPluginMessage { .. } => lemma_plugin_message_round_trip(v),
        _ => {},
    }
}

} // verus!
