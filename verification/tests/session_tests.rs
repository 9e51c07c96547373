use aes::cipher::{BlockDecryptMut, BlockEncryptMut, KeyIvInit};
use blockchain::encryption::ServerEncryption;
use blockchain::errors::{CipherError, MinecraftError, TransportError};
use blockchain::packets::configuration::handle_configuration_packet;
use blockchain::packets::login::{
    check_verify_token, handle_login_packets, install_session, request_encryption,
    take_verify_token,
};
use blockchain::packets::status::{build_server_status, handle_status_packets, PROTOCOL_NUMBER};
use blockchain::packets::{
    process_packet, write_encryption_transparent, write_packet, Notice, PlayerContext,
    PlayerEncryptionContext, PlayerLoginContext, PACKET_WRITE_BUFFER_SIZE,
};
use blockchain::protocol::{DeserializeErr, Id, PacketDirection, PacketErr, SerializeErr, State};
use blockchain::server::{
    handle_connection, read_packet_length, Connection, ConnectionStep, ReadBuffer,
    MAX_PACKET_LENGTH, READ_BUF, READ_BUF_MAX,
};
use blockchain::types::{bytes_equal, Chat, VarInt};
use blockchain::uuid::UUID4;
use blockchain::v1_21_8::{
    ConfigurationClientInformationSpec, ConfigurationFinishAckSpec, HandshakeIntent,
    HandshakeSpec, LoginAcknowledgedSpec, LoginEncryptionResponseSpec, LoginStartSpec,
    LoginSuccessProperty, LoginSuccessSpec, ChatMode, MainHand, Packet772, ParticleStatus,
    PingRequestSpec, ServerBoundPluginMessageSpec, StatusRequestSpec,
};
use blockchain::varint::encode_varint;
use rsa::pkcs8::DecodePublicKey;
use rsa::traits::PublicKeyParts;

const MODULUS: &str = "c727db5f8b80d946897f00f06d648610323a39daa632c8eac5cb365fd7e07c76a9b72350d6307849b0194e1d7e156a87dc81a5f18c47d946c04c190d47a38804e2e47dfb4c5803e86a9f5ca262ff07e0d08bd9fdfe4a2ae72e2042426ca3828063484913833eefbff92ca1de22c2a14ef9a736c89076e358f137902b2e67f5e5";
const PUBLIC_EXPONENT: &str = "010001";
const PRIVATE_EXPONENT: &str = "6cc34094026cc0bc3bf4e73f668ea2848fd9aaa4d56520c2ce78775e8a57e7c12a5880e9f1bf90c1b5716c6ec0dfd349154c9ca2b8d8b83962656cbd0ae5ad2efe5d84b20ce18594ed981b2cb2105bf5f449d6b4eb2c74325be371d70f50a51c0a16c91a108fba3fb034063c8512fdd6c6daa670ab79e3c06a3f2104215c46c1";
const PRIME_P: &str = "f6bd8eca9f374cd643e94334742de49bbbb458d39fd583eb0286ecec43432c6bc8fd442ec56309d2d31f0231deef435140ba6f09be38fcbb133945bae4114d11";
const PRIME_Q: &str = "cea126a79ed8d79564c81aab126877467b46b4e5258846c6b9a6d6e728a446aee0620ac628ccadbf2017088ffb2fdd9c2f1e82ab8ba5ffa9bbbff07a63206b95";

fn hex(text: &str) -> Vec<u8> {
    (0..text.len() / 2).map(|i| u8::from_str_radix(&text[2 * i..2 * i + 2], 16).unwrap()).collect()
}

fn server_key() -> ServerEncryption {
    ServerEncryption::new(
        hex(MODULUS),
        hex(PUBLIC_EXPONENT),
        hex(PRIVATE_EXPONENT),
        hex(PRIME_P),
        hex(PRIME_Q),
    )
    .unwrap()
}

struct CountingRng(u64);

impl rsa::rand_core::RngCore for CountingRng {
    fn next_u32(&mut self) -> u32 {
        self.next_u64() as u32
    }

    fn next_u64(&mut self) -> u64 {
        self.0 = self.0.wrapping_mul(6364136223846793005).wrapping_add(1442695040888963407);
        self.0 >> 11
    }

    fn fill_bytes(&mut self, dest: &mut [u8]) {
        for b in dest.iter_mut() {
            *b = (self.next_u64() >> 3) as u8;
        }
    }

    fn try_fill_bytes(&mut self, dest: &mut [u8]) -> Result<(), rsa::rand_core::Error> {
        self.fill_bytes(dest);
        Ok(())
    }
}

impl rsa::rand_core::CryptoRng for CountingRng {}

fn client_encrypt(data: &[u8]) -> Vec<u8> {
    let public = rsa::RsaPublicKey::new(
        rsa::BigUint::from_bytes_be(&hex(MODULUS)),
        rsa::BigUint::from_bytes_be(&hex(PUBLIC_EXPONENT)),
    )
    .unwrap();
    public.encrypt(&mut CountingRng(data.len() as u64 + 1), rsa::Pkcs1v15Encrypt, data).unwrap()
}

fn random_token() -> [u8; 64] {
    let mut t = [0u8; 64];
    for (i, b) in t.iter_mut().enumerate() {
        *b = (i as u8).wrapping_mul(37).wrapping_add(11);
    }
    t
}

fn secret() -> Vec<u8> {
    (0u8..16).map(|i| 0xa0 ^ i.wrapping_mul(13)).collect()
}

const ALICE: u128 = 0x0123_4567_89ab_cdef_0011_2233_4455_6677;

fn login_context() -> PlayerContext {
    let mut context = PlayerContext::default();
    context.state = State::Login;
    context
}

fn login_start() -> Packet772 {
    Packet772::LoginStart(LoginStartSpec { name: "Alice".to_string(), uuid: UUID4::from_u128(ALICE) })
}

fn encryption_response(secret: &[u8], token: &[u8]) -> Packet772 {
    Packet772::LoginEncryptionResponse(LoginEncryptionResponseSpec {
        shared_secret: client_encrypt(secret),
        verify_token: client_encrypt(token),
    })
}

fn frame_of(packet: &Packet772) -> Vec<u8> {
    let mut payload = encode_varint(packet.id().id as u32);
    payload.extend_from_slice(&packet.body_bytes().unwrap());
    let mut frame = encode_varint(payload.len() as u32);
    frame.extend_from_slice(&payload);
    frame
}

fn ping(payload: u64) -> Packet772 {
    Packet772::PingRequest(PingRequestSpec { payload })
}

fn pong_frame(payload: u64) -> Vec<u8> {
    let mut frame = vec![9, 1];
    frame.extend_from_slice(&payload.to_be_bytes());
    frame
}

fn handshake(intent: HandshakeIntent) -> Packet772 {
    Packet772::Handshake(HandshakeSpec {
        protocol_version: VarInt(772),
        server_address: "example.org".to_string(),
        server_port: 25565,
        intent,
    })
}

fn feed(connection: &mut Connection, bytes: &[u8]) {
    assert!(bytes.len() <= connection.buffer.writable());
    connection.buffer.read_socket(bytes).unwrap();
}

/// Serves until data is needed; gives what was sent.
fn drain(connection: &mut Connection, key: &ServerEncryption) -> Result<Vec<Vec<u8>>, MinecraftError> {
    let mut sent = Vec::new();
    loop {
        match handle_connection(connection, key, Some(&random_token()))? {
            ConnectionStep::NeedData => return Ok(sent),
            ConnectionStep::NeedRandom => panic!("random bytes were handed in"),
            ConnectionStep::Empty | ConnectionStep::Discarded(_) => sent.push(Vec::new()),
            ConnectionStep::Processed(o) => {
                assert!(o.keep_open);
                sent.push(o.outbound);
            }
        }
    }
}

#[test]
fn a_new_session_starts_in_the_handshaking_phase() {
    let context = PlayerContext::default();
    assert_eq!(context.state, State::Handshaking);
    assert!(context.login_context.is_none());
    assert!(context.encryption_context.is_none());
}

#[test]
fn ping_is_echoed() {
    let mut context = PlayerContext::default();
    context.state = State::Status;
    let outcome = handle_status_packets(ping(42), &mut context).unwrap();
    assert!(outcome.keep_open);
    assert!(outcome.leftover.is_none());
    match outcome.response {
        Some(Packet772::PingResponse(p)) => assert_eq!(p.payload, 42),
        other => panic!("unexpected {:?}", other),
    }
    assert_eq!(context.state, State::Status);
}

#[test]
fn ping_answer_on_the_wire() {
    let mut context = PlayerContext::default();
    context.state = State::Status;
    let o = process_packet(ping(42), &mut context, &server_key(), &random_token()).unwrap();
    assert!(o.keep_open);
    assert_eq!(o.outbound, vec![9, 1, 0, 0, 0, 0, 0, 0, 0, 42]);
    let o = process_packet(ping(u64::MAX), &mut context, &server_key(), &random_token()).unwrap();
    assert_eq!(o.outbound, pong_frame(u64::MAX));
}

#[test]
fn status_request_is_answered_with_the_server_status() {
    let mut context = PlayerContext::default();
    context.state = State::Status;
    let request = Packet772::StatusRequest(StatusRequestSpec {});
    let outcome = handle_status_packets(request, &mut context).unwrap();
    match outcome.response {
        Some(Packet772::StatusResponse(s)) => {
            let version = s.response.version.unwrap();
            assert_eq!(version.protocol, PROTOCOL_NUMBER);
            assert_eq!(version.protocol, 772);
            assert_eq!(version.name, "1.21.8");
            assert_eq!(s.response.players.max, 10);
            assert_eq!(s.response.players.online, 0);
            assert!(s.response.players.sample.is_empty());
            assert!(s.response.favicon.is_none());
            assert!(!s.response.enforces_secure_chat);
            match s.response.description {
                Chat::Text(t) => assert_eq!(
                    t.text,
                    "blockchain - instead of bitcoin, a block game for your key chain!"
                ),
            }
        }
        other => panic!("unexpected {:?}", other),
    }
}

#[test]
fn status_answer_on_the_wire() {
    let mut context = PlayerContext::default();
    context.state = State::Status;
    let request = Packet772::StatusRequest(StatusRequestSpec {});
    let o = process_packet(request, &mut context, &server_key(), &random_token()).unwrap();
    let json = "{\"version\":{\"name\":\"1.21.8\",\"protocol\":772},\"players\":{\"max\":10,\
                \"online\":0,\"sample\":[]},\"description\":{\"text\":\"blockchain - instead of \
                bitcoin, a block game for your key chain!\"},\"enforcesSecureChat\":false}";
    assert_eq!(build_server_status().to_json(), json.as_bytes());
    let mut payload = vec![0u8];
    payload.extend_from_slice(&encode_varint(json.len() as u32));
    payload.extend_from_slice(json.as_bytes());
    let mut expected = encode_varint(payload.len() as u32);
    expected.extend_from_slice(&payload);
    assert_eq!(o.outbound, expected);
}

#[test]
fn handshake_sets_the_phase() {
    for (intent, phase) in [
        (HandshakeIntent::Status, State::Status),
        (HandshakeIntent::Login, State::Login),
        (HandshakeIntent::Transfer, State::Handshaking),
    ] {
        let mut context = PlayerContext::default();
        let o = process_packet(handshake(intent), &mut context, &server_key(), &random_token())
            .unwrap();
        assert!(o.keep_open);
        assert!(o.outbound.is_empty());
        assert_eq!(context.state, phase);
    }
    let mut context = PlayerContext::default();
    context.state = State::Status;
    let outcome = handle_status_packets(handshake(HandshakeIntent::Transfer), &mut context).unwrap();
    assert!(outcome.response.is_none() && outcome.leftover.is_none());
    assert_eq!(context.state, State::Status);
}

#[test]
fn status_handler_hands_unknown_packets_back() {
    let mut context = PlayerContext::default();
    let outcome = handle_status_packets(login_start(), &mut context).unwrap();
    assert!(matches!(outcome.leftover, Some(Packet772::LoginStart(_))));
    assert!(outcome.response.is_none());
    assert!(outcome.keep_open);
}

#[test]
fn login_acknowledged_outside_the_login_phase_is_passed_over() {
    for phase in [State::Status, State::Handshaking, State::Configuration, State::Play] {
        let mut context = PlayerContext::default();
        context.state = phase;
        let packet = Packet772::LoginAcknowledged(LoginAcknowledgedSpec {});
        let o = process_packet(packet, &mut context, &server_key(), &random_token()).unwrap();
        assert!(o.keep_open);
        assert!(o.outbound.is_empty());
        assert_eq!(
            o.unhandled,
            Some(Id { id: 3, state: State::Login, direction: PacketDirection::ServerBound })
        );
        assert_eq!(context.state, phase);
    }
}

#[test]
fn login_acknowledged_in_the_login_phase_starts_the_configuration() {
    let mut context = login_context();
    let packet = Packet772::LoginAcknowledged(LoginAcknowledgedSpec {});
    let o = process_packet(packet, &mut context, &server_key(), &random_token()).unwrap();
    assert!(o.keep_open && o.outbound.is_empty() && o.unhandled.is_none());
    assert_eq!(context.state, State::Configuration);
}

#[test]
fn public_key_export_is_the_key() {
    let der = server_key().export_public_key().unwrap();
    assert_eq!(der[0], 0x30);
    assert_ne!(der, hex(MODULUS));
    let parsed = rsa::RsaPublicKey::from_public_key_der(&der).unwrap();
    assert_eq!(parsed.n().to_bytes_be(), hex(MODULUS));
    assert_eq!(parsed.e().to_bytes_be(), hex(PUBLIC_EXPONENT));
}

#[test]
fn decrypt_gives_back_what_was_encrypted() {
    let key = server_key();
    let message = b"sixteen byte key".to_vec();
    let wire = client_encrypt(&message);
    assert_eq!(wire.len(), 128);
    assert_ne!(wire[..16], message[..]);
    assert_eq!(key.decrypt_data(&wire).unwrap(), message);
    assert_eq!(key.decrypt_data(&client_encrypt(&[])).unwrap(), Vec::<u8>::new());
}

#[test]
fn decrypt_refuses_garbage() {
    let key = server_key();
    assert!(key.decrypt_data(&[1, 2, 3]).is_err());
    assert!(key.decrypt_data(&[0xff; 128]).is_err());
    assert!(key.decrypt_data(&[0xff; 200]).is_err());
}

#[test]
fn a_key_that_is_none_is_refused() {
    let broken =
        ServerEncryption::new(hex(MODULUS), hex(PUBLIC_EXPONENT), vec![3], hex(PRIME_P), hex(PRIME_Q))
            .unwrap();
    assert!(broken.decrypt_data(&client_encrypt(b"x")).is_err());
    let swapped = ServerEncryption::new(
        hex(MODULUS),
        hex(PUBLIC_EXPONENT),
        hex(PRIVATE_EXPONENT),
        hex(PRIME_Q),
        hex(PRIME_Q),
    )
    .unwrap();
    assert!(swapped.decrypt_data(&client_encrypt(b"x")).is_err());
}

#[test]
fn a_key_pair_needs_balanced_primes() {
    let with_primes = |p: Vec<u8>, q: Vec<u8>| {
        ServerEncryption::new(hex(MODULUS), hex(PUBLIC_EXPONENT), hex(PRIVATE_EXPONENT), p, q)
    };
    assert!(with_primes(hex(PRIME_P), hex(PRIME_Q)).is_some());
    assert!(with_primes(vec![], vec![]).is_none());
    assert!(with_primes(vec![3], hex(PRIME_Q)).is_none());
    assert!(with_primes(hex(PRIME_P), hex(PRIME_Q)[1..].to_vec()).is_none());
    let mut padded = hex(PRIME_P);
    padded[0] = 0;
    assert!(with_primes(padded.clone(), hex(PRIME_Q)).is_none());
    assert!(with_primes(hex(PRIME_P), padded).is_none());
    let key = server_key();
    assert_eq!(key.modulus(), &hex(MODULUS));
    assert_eq!(key.public_exponent(), &hex(PUBLIC_EXPONENT));
}

#[test]
fn login_start_asks_for_encryption() {
    let key = server_key();
    let mut context = login_context();
    let outcome = handle_login_packets(login_start(), &mut context, &key, &random_token()).unwrap();
    assert!(outcome.keep_open && outcome.leftover.is_none());
    match outcome.response {
        Some(Packet772::LoginEncryptionRequest(r)) => {
            assert_eq!(r.server_id, "");
            assert_eq!(r.public_key, key.export_public_key().unwrap());
            assert_eq!(r.verify_token, random_token().to_vec());
            assert!(!r.should_authenticate);
        }
        other => panic!("unexpected {:?}", other),
    }
    let login = context.login_context.unwrap();
    assert_eq!(login.verify_token, Some(random_token().to_vec()));
    assert_eq!(login.uuid, UUID4::from_u128(ALICE));
    assert_eq!(login.username, "Alice");
    assert!(context.encryption_context.is_none());
    assert_eq!(context.state, State::Login);
}

#[test]
fn login_handshake_happy_path() {
    let key = server_key();
    let mut context = login_context();
    let o = process_packet(login_start(), &mut context, &key, &random_token()).unwrap();
    assert!(o.keep_open);
    // The request goes out in the clear: frame length, packet number 1, empty server id.
    let der = key.export_public_key().unwrap();
    let mut payload = vec![1u8, 0];
    payload.extend_from_slice(&encode_varint(der.len() as u32));
    payload.extend_from_slice(&der);
    payload.push(64);
    payload.extend_from_slice(&random_token());
    payload.push(0);
    let mut expected = encode_varint(payload.len() as u32);
    expected.extend_from_slice(&payload);
    assert_eq!(o.outbound, expected);

    let answer = encryption_response(&secret(), &random_token());
    let o = process_packet(answer, &mut context, &key, &random_token()).unwrap();
    assert!(o.keep_open);
    let cipher = context.encryption_context.unwrap();
    assert_eq!(cipher.shared_token.to_vec(), secret());
    assert_eq!(cipher.decrypter.to_vec(), secret());
    assert!(context.login_context.as_ref().unwrap().verify_token.is_none());

    // The login success is the first thing that goes through the cipher.
    let mut clear = o.outbound.clone();
    let mut state = cfb8::Decryptor::<aes::Aes128>::new_from_slices(&secret(), &secret()).unwrap();
    for chunk in clear.chunks_mut(1) {
        state.decrypt_block_mut(chunk.into());
    }
    let success = Packet772::LoginSuccess(LoginSuccessSpec {
        uuid: UUID4::from_u128(ALICE),
        username: "Alice".to_string(),
        properties: Vec::new(),
    });
    assert_eq!(clear, frame_of(&success));
    assert_ne!(o.outbound, clear);
    assert_eq!(cipher.encrypter.to_vec(), o.outbound[o.outbound.len() - 16..].to_vec());
}

#[test]
fn login_success_names_the_player() {
    let key = server_key();
    let mut context = login_context();
    handle_login_packets(login_start(), &mut context, &key, &random_token()).unwrap();
    let answer = encryption_response(&secret(), &random_token());
    let outcome = handle_login_packets(answer, &mut context, &key, &random_token()).unwrap();
    match outcome.response {
        Some(Packet772::LoginSuccess(s)) => {
            assert_eq!(s.uuid, UUID4::from_u128(ALICE));
            assert_eq!(s.username, "Alice");
            assert!(s.properties.is_empty());
        }
        other => panic!("unexpected {:?}", other),
    }
    assert_eq!(context.state, State::Login);
}

#[test]
fn verify_token_mismatch_is_unauthorized() {
    let key = server_key();
    let mut context = login_context();
    process_packet(login_start(), &mut context, &key, &random_token()).unwrap();
    let mut wrong = random_token();
    wrong[63] ^= 1;
    let answer = encryption_response(&secret(), &wrong);
    let r = process_packet(answer, &mut context, &key, &random_token());
    assert!(matches!(r, Err(MinecraftError::Unauthorized)));
    assert!(context.encryption_context.is_none());
    assert!(context.login_context.unwrap().verify_token.is_none());
}

#[test]
fn verify_token_of_another_length_is_unauthorized() {
    let key = server_key();
    let mut context = login_context();
    process_packet(login_start(), &mut context, &key, &random_token()).unwrap();
    let answer = encryption_response(&secret(), &random_token()[..63]);
    let r = process_packet(answer, &mut context, &key, &random_token());
    assert!(matches!(r, Err(MinecraftError::Unauthorized)));
}

#[test]
fn second_encryption_response_is_unauthorized() {
    let key = server_key();
    let mut context = login_context();
    process_packet(login_start(), &mut context, &key, &random_token()).unwrap();
    let answer = encryption_response(&secret(), &random_token());
    assert!(process_packet(answer, &mut context, &key, &random_token()).is_ok());
    let before = context.encryption_context.unwrap();
    let again = encryption_response(&secret(), &random_token());
    let r = process_packet(again, &mut context, &key, &random_token());
    assert!(matches!(r, Err(MinecraftError::Unauthorized)));
    let after = context.encryption_context.unwrap();
    assert_eq!(before.encrypter, after.encrypter);
}

#[test]
fn second_encryption_response_after_a_refusal_is_unauthorized() {
    let key = server_key();
    let mut context = login_context();
    process_packet(login_start(), &mut context, &key, &random_token()).unwrap();
    let wrong = encryption_response(&secret(), &[1, 2, 3]);
    assert!(matches!(
        process_packet(wrong, &mut context, &key, &random_token()),
        Err(MinecraftError::Unauthorized)
    ));
    let right = encryption_response(&secret(), &random_token());
    assert!(matches!(
        process_packet(right, &mut context, &key, &random_token()),
        Err(MinecraftError::Unauthorized)
    ));
    assert!(context.encryption_context.is_none());
}

#[test]
fn encryption_response_without_a_login_is_unauthorized() {
    let key = server_key();
    let mut context = login_context();
    let answer = encryption_response(&secret(), &random_token());
    let r = process_packet(answer, &mut context, &key, &random_token());
    assert!(matches!(r, Err(MinecraftError::Unauthorized)));
    assert!(context.login_context.is_none());
    assert!(context.encryption_context.is_none());
}

#[test]
fn token_that_cannot_be_decrypted_is_a_cipher_error() {
    let key = server_key();
    let mut context = login_context();
    process_packet(login_start(), &mut context, &key, &random_token()).unwrap();
    let answer = Packet772::LoginEncryptionResponse(LoginEncryptionResponseSpec {
        shared_secret: client_encrypt(&secret()),
        verify_token: vec![0xff; 128],
    });
    let r = process_packet(answer, &mut context, &key, &random_token());
    assert!(matches!(r, Err(MinecraftError::EncryptionError(CipherError::Rsa(_)))));
    assert!(context.login_context.unwrap().verify_token.is_none());
}

#[test]
fn secret_that_cannot_be_decrypted_is_a_cipher_error() {
    let key = server_key();
    let mut context = login_context();
    process_packet(login_start(), &mut context, &key, &random_token()).unwrap();
    let answer = Packet772::LoginEncryptionResponse(LoginEncryptionResponseSpec {
        shared_secret: vec![7; 5],
        verify_token: client_encrypt(&random_token()),
    });
    let r = process_packet(answer, &mut context, &key, &random_token());
    assert!(matches!(r, Err(MinecraftError::EncryptionError(CipherError::Rsa(_)))));
    assert!(context.encryption_context.is_none());
}

#[test]
fn secret_of_another_length_fails_the_session_setup() {
    let key = server_key();
    for len in [0usize, 15, 17, 32] {
        let mut context = login_context();
        process_packet(login_start(), &mut context, &key, &random_token()).unwrap();
        let answer = encryption_response(&vec![5u8; len], &random_token());
        let r = process_packet(answer, &mut context, &key, &random_token());
        assert!(
            matches!(r, Err(MinecraftError::EncryptionError(CipherError::SecretLength(n))) if n == len)
        );
        assert!(context.encryption_context.is_none());
    }
}

#[test]
fn login_handler_hands_unknown_packets_back() {
    let mut context = login_context();
    let outcome = handle_login_packets(ping(1), &mut context, &server_key(), &random_token()).unwrap();
    assert!(matches!(outcome.leftover, Some(Packet772::PingRequest(_))));
    assert!(outcome.response.is_none());
    let o = process_packet(ping(1), &mut context, &server_key(), &random_token()).unwrap();
    assert!(o.outbound.is_empty() && o.keep_open);
}

#[test]
fn configuration_phase() {
    let key = server_key();
    let mut context = PlayerContext::default();
    context.state = State::Configuration;
    let brand = Packet772::ServerBoundPluginMessage(ServerBoundPluginMessageSpec {
        id: "minecraft:brand".to_string(),
        data: vec![0xff, 0xfe],
    });
    let outcome = handle_configuration_packet(brand, &mut context).unwrap();
    assert!(outcome.leftover.is_none() && outcome.response.is_none() && outcome.keep_open);

    let settings = Packet772::ConfigurationClientInformation(ConfigurationClientInformationSpec {
        locale: "en_US".to_string(),
        view_distance: 8,
        chat_mode: ChatMode::Enabled,
        chat_colours: true,
        display_skin_parts: 0,
        main_hand: MainHand::Left,
        text_filtering: false,
        allow_list_players: false,
        particle_status: ParticleStatus::All,
    });
    let o = process_packet(settings, &mut context, &key, &random_token()).unwrap();
    assert_eq!(o.outbound, vec![1, 3]);
    assert_eq!(context.state, State::Configuration);

    let ack = Packet772::ConfigurationFinishAck(ConfigurationFinishAckSpec {});
    let o = process_packet(ack, &mut context, &key, &random_token()).unwrap();
    assert!(o.outbound.is_empty() && o.keep_open);
    assert_eq!(context.state, State::Play);

    let outcome = handle_configuration_packet(ping(3), &mut context).unwrap();
    assert!(matches!(outcome.leftover, Some(Packet772::PingRequest(_))));
}

#[test]
fn play_phase_passes_every_packet_over() {
    let mut context = PlayerContext::default();
    context.state = State::Play;
    for packet in [ping(1), login_start(), handshake(HandshakeIntent::Status)] {
        let o = process_packet(packet, &mut context, &server_key(), &random_token()).unwrap();
        assert!(o.outbound.is_empty() && o.keep_open);
        assert_eq!(context.state, State::Play);
    }
}

#[test]
fn write_packet_frames_the_packet() {
    let mut context = PlayerContext::default();
    let bytes = write_packet(&mut context, &ping(0x0102)).unwrap();
    assert_eq!(bytes, vec![9, 1, 0, 0, 0, 0, 0, 0, 1, 2]);
}

#[test]
fn write_packet_encrypts_once_there_is_a_cipher() {
    let mut context = PlayerContext::default();
    context.encryption_context = Some(PlayerEncryptionContext::new(secret()));
    let first = write_packet(&mut context, &ping(1)).unwrap();
    let second = write_packet(&mut context, &ping(2)).unwrap();
    let mut state = cfb8::Encryptor::<aes::Aes128>::new_from_slices(&secret(), &secret()).unwrap();
    let mut expected = frame_of(&ping(1));
    expected.extend_from_slice(&frame_of(&ping(2)));
    for chunk in expected.chunks_mut(1) {
        state.encrypt_block_mut(chunk.into());
    }
    let mut sent = first.clone();
    sent.extend_from_slice(&second);
    assert_eq!(sent, expected);
    assert_ne!(first, frame_of(&ping(1)));
}

#[test]
fn write_packet_refuses_what_does_not_fit_the_buffer() {
    let mut context = PlayerContext::default();
    context.encryption_context = Some(PlayerEncryptionContext::new(secret()));
    let long = Packet772::LoginSuccess(LoginSuccessSpec {
        uuid: UUID4 { raw: 0 },
        username: "x".repeat(5000),
        properties: Vec::new(),
    });
    let r = write_packet(&mut context, &long);
    assert!(matches!(r, Err(MinecraftError::SerializeError(SerializeErr::BufferFull))));
    assert_eq!(context.encryption_context.unwrap().encrypter.to_vec(), secret());

    // Packet number, sixteen bytes, two bytes of count, the name, one byte of count.
    let fits = |len: usize| {
        let p = Packet772::LoginSuccess(LoginSuccessSpec {
            uuid: UUID4 { raw: 0 },
            username: "x".repeat(len),
            properties: vec![],
        });
        write_packet(&mut PlayerContext::default(), &p).is_ok()
    };
    assert!(fits(PACKET_WRITE_BUFFER_SIZE - 21));
    assert!(!fits(PACKET_WRITE_BUFFER_SIZE - 20));
}

#[test]
fn transparent_write_leaves_bytes_alone_without_a_cipher() {
    let mut context = PlayerContext::default();
    let mut data = vec![1u8, 2, 3];
    write_encryption_transparent(&mut context, &mut data);
    assert_eq!(data, vec![1, 2, 3]);
    context.encryption_context = Some(PlayerEncryptionContext::new(secret()));
    write_encryption_transparent(&mut context, &mut data);
    assert_ne!(data, vec![1, 2, 3]);
    assert_eq!(data.len(), 3);
}

#[test]
fn bytes_equal_compares_content() {
    assert!(bytes_equal(&[], &[]));
    assert!(bytes_equal(&[1, 2, 3], &[1, 2, 3]));
    assert!(!bytes_equal(&[1, 2, 3], &[1, 2, 4]));
    assert!(!bytes_equal(&[1, 2, 3], &[1, 2]));
    assert!(!bytes_equal(&[0], &[]));
}

#[test]
fn buffer_takes_bytes_in_the_order_of_arrival() {
    let mut buffer = ReadBuffer::new();
    assert_eq!(buffer.writable(), READ_BUF_MAX);
    assert_eq!(buffer.available(), 0);
    buffer.read_socket(&[1, 2, 3]).unwrap();
    buffer.read_socket(&[4]).unwrap();
    assert_eq!(buffer.available(), 4);
    assert_eq!(buffer.writable(), READ_BUF_MAX - 4);
    assert_eq!(buffer.peek(2), vec![1, 2]);
    assert_eq!(buffer.take(3), vec![1, 2, 3]);
    buffer.read_socket(&[5, 6]).unwrap();
    assert_eq!(buffer.take(3), vec![4, 5, 6]);
    assert_eq!(buffer.available(), 0);
}

#[test]
fn a_read_that_gave_nothing_is_a_reset() {
    let mut buffer = ReadBuffer::new();
    assert_eq!(buffer.read_socket(&[]), Err(TransportError::ConnectionReset));
    buffer.read_socket(&[1]).unwrap();
    assert_eq!(buffer.read_socket(&[]), Err(TransportError::ConnectionReset));
    assert_eq!(buffer.take(1), vec![1]);
    let e: MinecraftError = TransportError::ConnectionReset.into();
    assert!(matches!(e, MinecraftError::ConnectionError(TransportError::ConnectionReset)));
}

#[test]
fn compaction_keeps_the_pending_bytes() {
    let mut buffer = ReadBuffer::new();
    let stream: Vec<u8> = (0..40_000usize).map(|i| (i % 253) as u8).collect();
    let mut fed = 0;
    let mut got = Vec::new();
    let mut round = 0usize;
    while got.len() < stream.len() {
        let room = buffer.writable().min(stream.len() - fed).min(700 + round % 900);
        if room > 0 {
            buffer.read_socket(&stream[fed..fed + room]).unwrap();
            fed += room;
        }
        let n = buffer.available().min(1 + round * 7 % 1000);
        got.extend_from_slice(&buffer.take(n));
        if round % 3 == 0 {
            buffer.compact();
        } else {
            buffer.reclaim();
        }
        round += 1;
    }
    assert_eq!(got, stream);
    assert_eq!(buffer.available(), 0);
}

#[test]
fn compaction_frees_the_front_of_the_buffer() {
    let mut buffer = ReadBuffer::new();
    buffer.read_socket(&vec![7u8; READ_BUF_MAX]).unwrap();
    assert_eq!(buffer.writable(), 0);
    buffer.take(READ_BUF - 1);
    buffer.reclaim();
    assert_eq!(buffer.writable(), 0);
    buffer.take(1);
    buffer.reclaim();
    assert_eq!(buffer.writable(), READ_BUF);
    assert_eq!(buffer.available(), READ_BUF_MAX - READ_BUF);
    assert_eq!(buffer.peek(3), vec![7, 7, 7]);
}

#[test]
fn frame_length_is_read_without_taking_it() {
    let mut buffer = ReadBuffer::new();
    let context = PlayerContext::default();
    assert!(matches!(read_packet_length(&buffer, &context), Ok(None)));
    buffer.read_socket(&[0xac]).unwrap();
    assert!(matches!(read_packet_length(&buffer, &context), Ok(None)));
    buffer.read_socket(&[0x02, 9, 9]).unwrap();
    assert!(matches!(read_packet_length(&buffer, &context), Ok(Some((300, 2)))));
    assert_eq!(buffer.available(), 4);
}

#[test]
fn frame_length_is_read_over_the_whole_range() {
    let context = PlayerContext::default();
    for length in [0u32, 1, 127, 128, MAX_PACKET_LENGTH, MAX_PACKET_LENGTH + 1, 1 << 31, u32::MAX] {
        let mut buffer = ReadBuffer::new();
        let bytes = encode_varint(length);
        buffer.read_socket(&bytes).unwrap();
        assert!(matches!(
            read_packet_length(&buffer, &context),
            Ok(Some((value, len))) if value == length && len == bytes.len()
        ));
    }
    let mut buffer = ReadBuffer::new();
    buffer.read_socket(&[0xff, 0xff, 0xff, 0xff, 0x0f]).unwrap();
    assert!(matches!(read_packet_length(&buffer, &context), Ok(Some((4294967295, 5)))));
    let mut buffer = ReadBuffer::new();
    buffer.read_socket(&[0xff, 0xff, 0xff, 0xff, 0x8f]).unwrap();
    assert!(matches!(
        read_packet_length(&buffer, &context),
        Err(MinecraftError::InvalidPacketHeader)
    ));
}

#[test]
fn frame_length_at_the_bound() {
    let key = server_key();
    let mut connection = Connection::new();
    feed(&mut connection, &encode_varint(MAX_PACKET_LENGTH));
    assert!(matches!(
        handle_connection(&mut connection, &key, Some(&random_token())),
        Ok(ConnectionStep::NeedData)
    ));
    let mut connection = Connection::new();
    feed(&mut connection, &encode_varint(MAX_PACKET_LENGTH + 1));
    assert!(matches!(
        handle_connection(&mut connection, &key, Some(&random_token())),
        Err(MinecraftError::InvalidPacketHeader)
    ));
}

fn brand_frame(body_len: usize) -> (Vec<u8>, Vec<u8>) {
    // Packet number, the channel as a counted text, then the data.
    let data: Vec<u8> = (0..body_len - 17).map(|i| (i % 241) as u8).collect();
    let brand = Packet772::ServerBoundPluginMessage(ServerBoundPluginMessageSpec {
        id: "minecraft:brand".to_string(),
        data: data.clone(),
    });
    let frame = frame_of(&brand);
    assert_eq!(frame.len(), body_len + encode_varint(body_len as u32).len());
    (frame, data)
}

#[test]
fn a_frame_of_the_longest_length_is_buffered_whole_and_served() {
    let key = server_key();
    let mut connection = Connection::new();
    connection.context.state = State::Configuration;
    let (frame, data) = brand_frame(MAX_PACKET_LENGTH as usize);
    assert_eq!(frame.len(), READ_BUF_MAX - 2);
    let mut sent = Vec::new();
    for chunk in frame.chunks(4000) {
        feed(&mut connection, chunk);
        loop {
            match handle_connection(&mut connection, &key, None).unwrap() {
                ConnectionStep::NeedData => break,
                ConnectionStep::Processed(o) => sent.push(o),
                other => panic!("unexpected {:?}", other),
            }
        }
    }
    assert_eq!(sent.len(), 1);
    assert_eq!(sent[0].notice, Some(Notice::ClientBrand(data)));
    assert!(sent[0].outbound.is_empty() && sent[0].keep_open && sent[0].unhandled.is_none());
    assert_eq!(connection.buffer.available(), 0);
}

#[test]
fn room_is_made_for_a_long_frame_behind_the_cursor() {
    let key = server_key();
    let mut connection = Connection::new();
    connection.context.state = State::Configuration;
    // Move the cursor on, but not as far as the middle of the buffer.
    let (small, _) = brand_frame(30_000);
    feed(&mut connection, &small);
    assert!(matches!(
        handle_connection(&mut connection, &key, None),
        Ok(ConnectionStep::Processed(_))
    ));
    assert_eq!(connection.buffer.writable(), READ_BUF_MAX - small.len());
    let (frame, data) = brand_frame(MAX_PACKET_LENGTH as usize);
    let mut fed = 0;
    let mut served = None;
    while served.is_none() {
        match handle_connection(&mut connection, &key, None).unwrap() {
            ConnectionStep::NeedData => {
                let room = connection.buffer.writable().min(frame.len() - fed).min(5000);
                assert!(room > 0);
                feed(&mut connection, &frame[fed..fed + room]);
                fed += room;
            }
            ConnectionStep::Processed(o) => served = Some(o),
            other => panic!("unexpected {:?}", other),
        }
    }
    assert_eq!(served.unwrap().notice, Some(Notice::ClientBrand(data)));
    assert_eq!(fed, frame.len());
}

#[test]
fn random_bytes_are_asked_for_when_a_login_starts() {
    let key = server_key();
    let mut connection = Connection::new();
    let mut stream = frame_of(&handshake(HandshakeIntent::Login));
    stream.extend_from_slice(&frame_of(&login_start()));
    feed(&mut connection, &stream);
    assert!(matches!(
        handle_connection(&mut connection, &key, None),
        Ok(ConnectionStep::Processed(_))
    ));
    let waiting = connection.buffer.available();
    assert!(matches!(
        handle_connection(&mut connection, &key, None),
        Ok(ConnectionStep::NeedRandom)
    ));
    assert!(matches!(
        handle_connection(&mut connection, &key, None),
        Ok(ConnectionStep::NeedRandom)
    ));
    assert_eq!(connection.buffer.available(), waiting);
    assert!(connection.context.login_context.is_none());
    match handle_connection(&mut connection, &key, Some(&random_token())).unwrap() {
        ConnectionStep::Processed(o) => {
            assert_eq!(&o.outbound[o.outbound.len() - 65..o.outbound.len() - 1], &random_token())
        }
        other => panic!("unexpected {:?}", other),
    }
    assert_eq!(connection.buffer.available(), 0);
    // Outside the login phase the start of a login needs none.
    let mut connection = Connection::new();
    connection.context.state = State::Status;
    feed(&mut connection, &[2, 0x55, 0]);
    assert!(matches!(
        handle_connection(&mut connection, &key, None),
        Ok(ConnectionStep::Discarded(_))
    ));
}

#[test]
fn a_transfer_handshake_is_noted() {
    let mut context = PlayerContext::default();
    let outcome = handle_status_packets(handshake(HandshakeIntent::Transfer), &mut context).unwrap();
    assert_eq!(outcome.notice, Some(Notice::TransferUnsupported));
    let outcome = handle_status_packets(handshake(HandshakeIntent::Login), &mut context).unwrap();
    assert_eq!(outcome.notice, None);
    let mut context = PlayerContext::default();
    let o = process_packet(
        handshake(HandshakeIntent::Transfer),
        &mut context,
        &server_key(),
        &random_token(),
    )
    .unwrap();
    assert_eq!(o.notice, Some(Notice::TransferUnsupported));
    assert!(o.outbound.is_empty() && o.unhandled.is_none());
}

#[test]
fn the_brand_of_a_client_is_noted() {
    let mut context = PlayerContext::default();
    context.state = State::Configuration;
    let brand = Packet772::ServerBoundPluginMessage(ServerBoundPluginMessageSpec {
        id: "minecraft:brand".to_string(),
        data: vec![0xff, 7, 8],
    });
    let outcome = handle_configuration_packet(brand, &mut context).unwrap();
    assert_eq!(outcome.notice, Some(Notice::ClientBrand(vec![0xff, 7, 8])));
    let other = Packet772::ServerBoundPluginMessage(ServerBoundPluginMessageSpec {
        id: "minecraft:brands".to_string(),
        data: vec![1],
    });
    let outcome = handle_configuration_packet(other, &mut context).unwrap();
    assert_eq!(outcome.notice, None);
    assert!(outcome.leftover.is_none() && outcome.response.is_none());
}

fn pending_login(token: Option<Vec<u8>>) -> PlayerContext {
    let mut context = login_context();
    context.login_context = Some(PlayerLoginContext {
        verify_token: token,
        uuid: UUID4::from_u128(ALICE),
        username: "Alice".to_string(),
    });
    context
}

#[test]
fn encryption_is_requested_where_the_key_was_exported() {
    let mut context = login_context();
    let start = LoginStartSpec { name: "Alice".to_string(), uuid: UUID4::from_u128(ALICE) };
    let outcome =
        request_encryption(start, &mut context, Ok(vec![0x30, 1, 2]), &random_token()).unwrap();
    match outcome.response {
        Some(Packet772::LoginEncryptionRequest(r)) => {
            assert_eq!(r.public_key, vec![0x30, 1, 2]);
            assert_eq!(r.verify_token, random_token().to_vec());
            assert_eq!(r.server_id, "");
            assert!(!r.should_authenticate);
        }
        other => panic!("unexpected {:?}", other),
    }
    assert_eq!(context.login_context.unwrap().verify_token, Some(random_token().to_vec()));

    let mut context = login_context();
    let start = LoginStartSpec { name: "Alice".to_string(), uuid: UUID4::from_u128(ALICE) };
    let r = request_encryption(
        start,
        &mut context,
        Err(rsa::pkcs8::spki::Error::KeyMalformed),
        &random_token(),
    );
    assert!(matches!(r, Err(MinecraftError::CertificateParsingError(_))));
    assert!(context.login_context.is_none());
}

#[test]
fn a_verify_token_is_taken_once() {
    let mut context = pending_login(Some(vec![1, 2, 3]));
    assert_eq!(take_verify_token(&mut context), Some(vec![1, 2, 3]));
    assert_eq!(take_verify_token(&mut context), None);
    let login = context.login_context.unwrap();
    assert_eq!(login.verify_token, None);
    assert_eq!((login.uuid, login.username.as_str()), (UUID4::from_u128(ALICE), "Alice"));
    let mut context = login_context();
    assert_eq!(take_verify_token(&mut context), None);
    assert!(context.login_context.is_none());
}

#[test]
fn a_returned_token_has_to_be_the_issued_one() {
    assert!(check_verify_token(&[1, 2, 3], Ok(vec![1, 2, 3])).is_ok());
    assert!(check_verify_token(&[], Ok(vec![])).is_ok());
    assert!(matches!(
        check_verify_token(&[1, 2, 3], Ok(vec![1, 2, 4])),
        Err(MinecraftError::Unauthorized)
    ));
    assert!(matches!(
        check_verify_token(&[1, 2, 3], Ok(vec![1, 2])),
        Err(MinecraftError::Unauthorized)
    ));
    assert!(matches!(
        check_verify_token(&[1, 2, 3], Err(rsa::Error::Decryption)),
        Err(MinecraftError::EncryptionError(CipherError::Rsa(rsa::Error::Decryption)))
    ));
}

#[test]
fn a_session_is_installed_for_a_secret_of_sixteen_bytes() {
    let mut context = pending_login(None);
    let outcome = install_session(&mut context, Ok(secret())).unwrap();
    match outcome.response {
        Some(Packet772::LoginSuccess(s)) => {
            assert_eq!(s.uuid, UUID4::from_u128(ALICE));
            assert_eq!(s.username, "Alice");
            assert!(s.properties.is_empty());
        }
        other => panic!("unexpected {:?}", other),
    }
    let cipher = context.encryption_context.unwrap();
    assert_eq!(cipher.shared_token.to_vec(), secret());
    assert_eq!(cipher.encrypter.to_vec(), secret());
    assert_eq!(cipher.decrypter.to_vec(), secret());

    for len in [0usize, 15, 17] {
        let mut context = pending_login(None);
        let r = install_session(&mut context, Ok(vec![9; len]));
        assert!(matches!(
            r,
            Err(MinecraftError::EncryptionError(CipherError::SecretLength(n))) if n == len
        ));
        assert!(context.encryption_context.is_none());
    }
    let mut context = pending_login(None);
    let r = install_session(&mut context, Err(rsa::Error::Decryption));
    assert!(matches!(r, Err(MinecraftError::EncryptionError(CipherError::Rsa(_)))));
    let mut context = login_context();
    let r = install_session(&mut context, Ok(secret()));
    assert!(matches!(r, Err(MinecraftError::Unauthorized)));
    assert!(context.encryption_context.is_none());
}

#[test]
fn oversized_frame_ends_the_connection() {
    let key = server_key();
    let mut connection = Connection::new();
    feed(&mut connection, &encode_varint(MAX_PACKET_LENGTH + 1));
    let r = handle_connection(&mut connection, &key, Some(&random_token()));
    assert!(matches!(r, Err(MinecraftError::InvalidPacketHeader)));
    assert_eq!(connection.buffer.available(), 3);

    let mut connection = Connection::new();
    feed(&mut connection, &[0xff, 0xff, 0xff, 0xff, 0x0f, 1, 2, 3]);
    let r = handle_connection(&mut connection, &key, Some(&random_token()));
    assert!(matches!(r, Err(MinecraftError::InvalidPacketHeader)));
}

#[test]
fn frame_length_of_six_bytes_ends_the_connection() {
    let key = server_key();
    let mut connection = Connection::new();
    feed(&mut connection, &[0x80, 0x80, 0x80, 0x80]);
    assert!(matches!(
        handle_connection(&mut connection, &key, Some(&random_token())),
        Ok(ConnectionStep::NeedData)
    ));
    feed(&mut connection, &[0x80]);
    let r = handle_connection(&mut connection, &key, Some(&random_token()));
    assert!(matches!(r, Err(MinecraftError::InvalidPacketHeader)));
}

#[test]
fn status_round_trip_over_a_connection() {
    let key = server_key();
    let mut connection = Connection::new();
    let mut stream = frame_of(&handshake(HandshakeIntent::Status));
    stream.extend_from_slice(&frame_of(&ping(42)));
    feed(&mut connection, &stream);
    let sent = drain(&mut connection, &key).unwrap();
    assert_eq!(sent, vec![vec![], pong_frame(42)]);
    assert_eq!(connection.context.state, State::Status);
    assert_eq!(connection.buffer.available(), 0);
}

#[test]
fn no_frame_is_served_before_it_is_there_in_full() {
    let key = server_key();
    let mut connection = Connection::new();
    connection.context.state = State::Status;
    let frame = frame_of(&ping(7));
    for i in 0..frame.len() - 1 {
        feed(&mut connection, &frame[i..i + 1]);
        assert!(matches!(
            handle_connection(&mut connection, &key, Some(&random_token())),
            Ok(ConnectionStep::NeedData)
        ));
        assert_eq!(connection.buffer.available(), i + 1);
    }
    feed(&mut connection, &frame[frame.len() - 1..]);
    match handle_connection(&mut connection, &key, Some(&random_token())) {
        Ok(ConnectionStep::Processed(o)) => assert_eq!(o.outbound, pong_frame(7)),
        other => panic!("unexpected {:?}", other),
    }
    assert_eq!(connection.buffer.available(), 0);
}

fn session_stream() -> Vec<u8> {
    let mut stream = frame_of(&handshake(HandshakeIntent::Status));
    for i in 0..40u64 {
        stream.extend_from_slice(&frame_of(&ping(i * 1_000_003)));
        if i % 5 == 0 {
            stream.push(0);
        }
        if i % 7 == 0 {
            stream.extend_from_slice(&frame_of(&Packet772::StatusRequest(StatusRequestSpec {})));
        }
    }
    stream
}

fn serve_in_chunks(stream: &[u8], size: usize) -> Vec<u8> {
    let key = server_key();
    let mut connection = Connection::new();
    let mut sent = Vec::new();
    for chunk in stream.chunks(size) {
        feed(&mut connection, chunk);
        for part in drain(&mut connection, &key).unwrap() {
            sent.extend_from_slice(&part);
        }
    }
    assert_eq!(connection.buffer.available(), 0);
    sent
}

#[test]
fn chunking_does_not_change_what_is_served() {
    let stream = session_stream();
    let whole = serve_in_chunks(&stream, stream.len());
    assert!(whole.len() > 40 * 10);
    for size in [1usize, 2, 3, 5, 11, 64, 1000] {
        assert_eq!(serve_in_chunks(&stream, size), whole);
    }
}

#[test]
fn a_long_session_passes_through_the_compacted_buffer() {
    let key = server_key();
    let mut connection = Connection::new();
    connection.context.state = State::Status;
    let mut answered = 0u64;
    let mut asked = 0u64;
    while asked < 4000 {
        let mut chunk = Vec::new();
        for _ in 0..37 {
            chunk.extend_from_slice(&frame_of(&ping(asked)));
            asked += 1;
        }
        feed(&mut connection, &chunk[..200]);
        for part in drain(&mut connection, &key).unwrap() {
            assert_eq!(part, pong_frame(answered));
            answered += 1;
        }
        feed(&mut connection, &chunk[200..]);
        for part in drain(&mut connection, &key).unwrap() {
            assert_eq!(part, pong_frame(answered));
            answered += 1;
        }
    }
    assert_eq!(answered, asked);
}

#[test]
fn empty_frames_are_passed_over() {
    let key = server_key();
    let mut connection = Connection::new();
    connection.context.state = State::Status;
    let mut stream = vec![0u8, 0];
    stream.extend_from_slice(&frame_of(&ping(5)));
    feed(&mut connection, &stream);
    assert!(matches!(
        handle_connection(&mut connection, &key, Some(&random_token())),
        Ok(ConnectionStep::Empty)
    ));
    let sent = drain(&mut connection, &key).unwrap();
    assert_eq!(sent, vec![vec![], pong_frame(5)]);
}

#[test]
fn frames_that_give_no_packet_are_passed_over() {
    let key = server_key();
    let mut connection = Connection::new();
    connection.context.state = State::Status;
    let mut stream = vec![2u8, 0x55, 1];
    stream.extend_from_slice(&[3, 1, 2, 3]);
    stream.extend_from_slice(&[2, 0, 9]);
    stream.extend_from_slice(&frame_of(&ping(5)));
    feed(&mut connection, &stream);
    let unknown = Id { id: 0x55, state: State::Status, direction: PacketDirection::ServerBound };
    assert!(matches!(
        handle_connection(&mut connection, &key, Some(&random_token())),
        Ok(ConnectionStep::Discarded(PacketErr::UnknownId(id))) if id == unknown
    ));
    assert!(matches!(
        handle_connection(&mut connection, &key, Some(&random_token())),
        Ok(ConnectionStep::Discarded(PacketErr::DeserializeFailed(DeserializeErr::Eof)))
    ));
    assert!(matches!(
        handle_connection(&mut connection, &key, Some(&random_token())),
        Ok(ConnectionStep::Discarded(PacketErr::ExtraData(1)))
    ));
    let sent = drain(&mut connection, &key).unwrap();
    assert_eq!(sent, vec![pong_frame(5)]);
    assert_eq!(connection.context.state, State::Status);
}

#[test]
fn a_frame_whose_packet_number_cannot_be_read_is_passed_over() {
    let key = server_key();
    let mut connection = Connection::new();
    connection.context.state = State::Status;
    let mut stream = vec![1u8, 0x80];
    stream.extend_from_slice(&[6, 0x80, 0x80, 0x80, 0x80, 0x80, 0x00]);
    stream.extend_from_slice(&frame_of(&ping(9)));
    feed(&mut connection, &stream);
    assert!(matches!(
        handle_connection(&mut connection, &key, Some(&random_token())),
        Ok(ConnectionStep::Discarded(PacketErr::DeserializeFailed(DeserializeErr::Eof)))
    ));
    assert!(matches!(
        handle_connection(&mut connection, &key, Some(&random_token())),
        Ok(ConnectionStep::Discarded(PacketErr::DeserializeFailed(DeserializeErr::VarNumTooLong)))
    ));
    let sent = drain(&mut connection, &key).unwrap();
    assert_eq!(sent, vec![pong_frame(9)]);
}

#[test]
fn a_whole_login_over_a_connection() {
    let key = server_key();
    let mut connection = Connection::new();
    let mut client_out =
        cfb8::Encryptor::<aes::Aes128>::new_from_slices(&secret(), &secret()).unwrap();
    let mut client_in =
        cfb8::Decryptor::<aes::Aes128>::new_from_slices(&secret(), &secret()).unwrap();

    let mut stream = frame_of(&handshake(HandshakeIntent::Login));
    stream.extend_from_slice(&frame_of(&login_start()));
    feed(&mut connection, &stream);
    let sent = drain(&mut connection, &key).unwrap();
    assert_eq!(sent.len(), 2);
    assert!(sent[0].is_empty());
    assert_eq!(sent[1][sent[1].len() - 66], 64);
    assert_eq!(&sent[1][sent[1].len() - 65..sent[1].len() - 1], &random_token());

    // The answer goes in the clear; everything behind it is encrypted, and
    // arrives together with it.
    let mut stream = frame_of(&encryption_response(&secret(), &random_token()));
    let mut encrypted = frame_of(&Packet772::LoginAcknowledged(LoginAcknowledgedSpec {}));
    let brand = Packet772::ServerBoundPluginMessage(ServerBoundPluginMessageSpec {
        id: "minecraft:brand".to_string(),
        data: b"\x07vanilla".to_vec(),
    });
    encrypted.extend_from_slice(&frame_of(&brand));
    for chunk in encrypted.chunks_mut(1) {
        client_out.encrypt_block_mut(chunk.into());
    }
    stream.extend_from_slice(&encrypted);
    feed(&mut connection, &stream[..stream.len() - 4]);
    let mut sent = drain(&mut connection, &key).unwrap();
    feed(&mut connection, &stream[stream.len() - 4..]);
    sent.extend(drain(&mut connection, &key).unwrap());
    assert_eq!(sent.len(), 3);
    assert!(sent[1].is_empty() && sent[2].is_empty());
    assert_eq!(connection.context.state, State::Configuration);
    assert_eq!(connection.buffer.available(), 0);

    let mut success = sent[0].clone();
    for chunk in success.chunks_mut(1) {
        client_in.decrypt_block_mut(chunk.into());
    }
    let expected = Packet772::LoginSuccess(LoginSuccessSpec {
        uuid: UUID4::from_u128(ALICE),
        username: "Alice".to_string(),
        properties: Vec::<LoginSuccessProperty>::new(),
    });
    assert_eq!(success, frame_of(&expected));

    // Both directions go on through the same two cipher states.
    let settings = Packet772::ConfigurationClientInformation(ConfigurationClientInformationSpec {
        locale: "en_US".to_string(),
        view_distance: 8,
        chat_mode: ChatMode::Enabled,
        chat_colours: true,
        display_skin_parts: 0,
        main_hand: MainHand::Left,
        text_filtering: false,
        allow_list_players: false,
        particle_status: ParticleStatus::All,
    });
    let mut stream = frame_of(&settings);
    stream.extend_from_slice(&frame_of(&Packet772::ConfigurationFinishAck(
        ConfigurationFinishAckSpec {},
    )));
    for chunk in stream.chunks_mut(1) {
        client_out.encrypt_block_mut(chunk.into());
    }
    let mut sent = Vec::new();
    for chunk in stream.chunks(3) {
        feed(&mut connection, chunk);
        sent.extend(drain(&mut connection, &key).unwrap());
    }
    assert_eq!(sent.len(), 2);
    let mut finish = sent[0].clone();
    for chunk in finish.chunks_mut(1) {
        client_in.decrypt_block_mut(chunk.into());
    }
    assert_eq!(finish, vec![1, 3]);
    assert!(sent[1].is_empty());
    assert_eq!(connection.context.state, State::Play);
}

#[test]
fn a_refused_login_ends_the_connection() {
    let key = server_key();
    let mut connection = Connection::new();
    let mut stream = frame_of(&handshake(HandshakeIntent::Login));
    stream.extend_from_slice(&frame_of(&login_start()));
    stream.extend_from_slice(&frame_of(&encryption_response(&secret(), &[0u8; 64])));
    feed(&mut connection, &stream);
    assert!(matches!(drain(&mut connection, &key), Err(MinecraftError::Unauthorized)));
    assert!(connection.context.encryption_context.is_none());
}

#[test]
fn errors_of_the_parts_become_connection_errors() {
    let e: MinecraftError = SerializeErr::LengthTooLarge.into();
    assert!(matches!(e, MinecraftError::SerializeError(SerializeErr::LengthTooLarge)));
    let e: MinecraftError = DeserializeErr::InvalidBool.into();
    assert!(matches!(e, MinecraftError::DeserializeError(DeserializeErr::InvalidBool)));
    let e: MinecraftError = PacketErr::ExtraData(3).into();
    assert!(matches!(e, MinecraftError::PacketErr(PacketErr::ExtraData(3))));
    let e: MinecraftError = rsa::Error::Decryption.into();
    assert!(matches!(e, MinecraftError::EncryptionError(CipherError::Rsa(rsa::Error::Decryption))));
    let e: MinecraftError = rsa::pkcs8::spki::Error::KeyMalformed.into();
    assert!(matches!(
        e,
        MinecraftError::CertificateParsingError(rsa::pkcs8::spki::Error::KeyMalformed)
    ));
}
