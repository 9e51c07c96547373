//! The state of one session, the stream cipher that wraps its transport,
//! and the dispatch of packets to the handler of the current phase.

pub mod configuration;
pub mod login;
pub mod status;

use crate::encryption::ServerEncryption;
use crate::errors::{CipherError, MinecraftError};
use crate::packets::configuration::{configuration_step, handle_configuration_packet};
use crate::packets::login::{handle_login_packets, login_step};
use crate::packets::status::{handle_status_packets, status_step};
use crate::protocol::{Id, SerializeErr, State};
use crate::types::{append_bytes, ser_varint};
use crate::utils::SliceSerializer;
use crate::uuid::UUID4;
use crate::v1_21_8::{Packet772, PacketView};
use crate::varint::{encode_varint, spec_encode};
use vstd::prelude::*;

verus! {

/// The byte that AES-128 in CFB-8 mode mixes into the next byte of the
/// stream: the first byte of the block that `aes::Aes128`, keyed with `key`,
/// encrypts the shift register `iv` to. Both are sixteen bytes. The two
/// wrappers below run that block encryption, the one to encrypt and the
/// other to decrypt, and say how the cfb8 crate uses its first byte.
pub uninterp spec fn aes128_cfb8_keystream(key: Seq<u8>, iv: Seq<u8>) -> u8;

/// `cfb8::Encryptor::<aes::Aes128>`: `new` with the key and the shift
/// register, `encrypt_block_mut` on one byte, then `iv_state`. The byte that
/// comes out is the byte that went in, xor-ed with the keystream byte; the
/// register moves up by one byte and takes the byte that came out.
#[verifier::external_body]
fn cfb8_encrypt_byte(key: &[u8; 16], iv: &[u8; 16], byte: u8) -> (r: (u8, [u8; 16]))
    ensures
        r.0 == byte ^ aes128_cfb8_keystream(key@, iv@),
        r.1@ == iv@.skip(1).push(r.0),
{
    let mut state = <cfb8::Encryptor<aes::Aes128> as aes::cipher::KeyIvInit>::new(
        key.into(),
        iv.into(),
    );
    let mut block = [byte];
    aes::cipher::BlockEncryptMut::encrypt_block_mut(&mut state, (&mut block).into());
    (block[0], aes::cipher::IvState::iv_state(&state).into())
}

/// `cfb8::Decryptor::<aes::Aes128>`: `new` with the key and the shift
/// register, `decrypt_block_mut` on one byte, then `iv_state`. The byte that
/// comes out is the byte that went in, xor-ed with the keystream byte; the
/// register moves up by one byte and takes the byte that went in.
#[verifier::external_body]
fn cfb8_decrypt_byte(key: &[u8; 16], iv: &[u8; 16], byte: u8) -> (r: (u8, [u8; 16]))
    ensures
        r.0 == byte ^ aes128_cfb8_keystream(key@, iv@),
        r.1@ == iv@.skip(1).push(byte),
{
    let mut state = <cfb8::Decryptor<aes::Aes128> as aes::cipher::KeyIvInit>::new(
        key.into(),
        iv.into(),
    );
    let mut block = [byte];
    aes::cipher::BlockDecryptMut::decrypt_block_mut(&mut state, (&mut block).into());
    (block[0], aes::cipher::IvState::iv_state(&state).into())
}

/// The shift register after `bytes` went into it: the last sixteen bytes of
/// the old register followed by `bytes`.
pub open spec fn shift_in(iv: Seq<u8>, bytes: Seq<u8>) -> Seq<u8> {
    (iv + bytes).skip(bytes.len() as int)
}

/// The ciphertext of `data` under `key`, the register starting as `iv`:
/// each byte is mixed with the keystream byte of the register that holds
/// the ciphertext so far.
pub open spec fn cfb8_encrypt(key: Seq<u8>, iv: Seq<u8>, data: Seq<u8>) -> Seq<u8>
    decreases data.len(),
{
    if data.len() == 0 {
        Seq::<u8>::empty()
    } else {
        let before = cfb8_encrypt(key, iv, data.drop_last());
        before.push(data.last() ^ aes128_cfb8_keystream(key, shift_in(iv, before)))
    }
}

/// The plaintext of `data` under `key`, the register starting as `iv`:
/// each byte is mixed with the keystream byte of the register that holds
/// the ciphertext before it.
pub open spec fn cfb8_decrypt(key: Seq<u8>, iv: Seq<u8>, data: Seq<u8>) -> Seq<u8> {
    Seq::new(
        data.len(),
        |i: int| data[i] ^ aes128_cfb8_keystream(key, shift_in(iv, data.take(i))),
    )
}

/// The cipher of a session: one key, and a shift register for each
/// direction.
#[derive(Clone, Copy, Debug)]
pub struct PlayerEncryptionContext {
    pub encrypter: [u8; 16],
    pub decrypter: [u8; 16],
    pub shared_token: [u8; 16],
}

/// What a session cipher holds.
pub struct CipherView {
    pub key: Seq<u8>,
    pub encrypter: Seq<u8>,
    pub decrypter: Seq<u8>,
}

impl View for PlayerEncryptionContext {
    type V = CipherView;

    open spec fn view(&self) -> CipherView {
        CipherView {
            key: self.shared_token@,
            encrypter: self.encrypter@,
            decrypter: self.decrypter@,
        }
    }
}

impl CipherView {
    /// The cipher of a fresh session: the secret is the key and starts both
    /// registers.
    pub open spec fn fresh(secret: Seq<u8>) -> CipherView {
        CipherView { key: secret, encrypter: secret, decrypter: secret }
    }

    /// The cipher after `data` was encrypted.
    pub open spec fn after_encrypt(self, data: Seq<u8>) -> CipherView {
        CipherView {
            encrypter: shift_in(self.encrypter, cfb8_encrypt(self.key, self.encrypter, data)),
            ..self
        }
    }

    /// The cipher after `data` was decrypted.
    pub open spec fn after_decrypt(self, data: Seq<u8>) -> CipherView {
        CipherView { decrypter: shift_in(self.decrypter, data), ..self }
    }
}

impl PlayerEncryptionContext {
    /// The cipher for a shared secret of sixteen bytes.
    pub fn new(shared_token: Vec<u8>) -> (r: Self)
        requires
            shared_token@.len() == 16,
        ensures
            r@ == CipherView::fresh(shared_token@),
    {
        let mut key: [u8; 16] = [0u8; 16];
        let mut i: usize = 0;
        while i < 16
            invariant
                i <= 16,
                shared_token@.len() == 16,
                forall|j: int| 0 <= j < i ==> key@[j] == shared_token@[j],
            decreases 16 - i,
        {
            key[i] = shared_token[i];
            i = i + 1;
        }
        assert(key@ =~= shared_token@);
        PlayerEncryptionContext { encrypter: key, decrypter: key, shared_token: key }
    }

    /// Encrypts `data` where it stands and moves the register of the
    /// outbound direction on.
    pub fn encrypt_in_place(&mut self, data: &mut Vec<u8>)
        ensures
            final(data)@ == cfb8_encrypt(old(self)@.key, old(self)@.encrypter, old(data)@),
            final(self)@ == old(self)@.after_encrypt(old(data)@),
    {
        let ghost key = self.shared_token@;
        let ghost iv = self.encrypter@;
        let ghost plain = data@;
        let mut i: usize = 0;
        assert(shift_in(iv, cfb8_encrypt(key, iv, plain.take(0))) =~= iv);
        while i < data.len()
            invariant
                i <= data@.len(),
                data@.len() == plain.len(),
                self.shared_token@ == key,
                self.decrypter == old(self).decrypter,
                data@.take(i as int) == cfb8_encrypt(key, iv, plain.take(i as int)),
                data@.skip(i as int) == plain.skip(i as int),
                self.encrypter@ == shift_in(iv, cfb8_encrypt(key, iv, plain.take(i as int))),
            decreases data@.len() - i,
        {
            let ghost done = cfb8_encrypt(key, iv, plain.take(i as int));
            let ghost prev = data@;
            assert(data@[i as int] == data@.skip(i as int)[0]);
            let (out, next) = cfb8_encrypt_byte(&self.shared_token, &self.encrypter, data[i]);
            data[i] = out;
            self.encrypter = next;
            proof {
                assert(plain.take(i + 1).drop_last() =~= plain.take(i as int));
                assert(plain.take(i + 1).last() == plain[i as int]);
                assert(data@.take(i + 1) =~= done.push(out));
                assert(data@ == prev.update(i as int, out));
                assert forall|j: int| i < j < plain.len() implies data@[j] == plain[j] by {
                    assert(prev[j] == prev.skip(i as int)[j - i]);
                }
                assert(data@.take(i as int) =~= prev.take(i as int));
                assert(data@.skip(i + 1) =~= plain.skip(i + 1));
                assert(shift_in(iv, done.push(out)) =~= shift_in(iv, done).skip(1).push(out));
            }
            i = i + 1;
        }
        assert(data@.take(i as int) =~= data@);
        assert(plain.take(i as int) =~= plain);
    }

    /// Decrypts `data` where it stands and moves the register of the
    /// inbound direction on.
    pub fn decrypt_in_place(&mut self, data: &mut Vec<u8>)
        ensures
            final(data)@ == cfb8_decrypt(old(self)@.key, old(self)@.decrypter, old(data)@),
            final(self)@ == old(self)@.after_decrypt(old(data)@),
    {
        let ghost key = self.shared_token@;
        let ghost iv = self.decrypter@;
        let ghost cipher = data@;
        let mut i: usize = 0;
        assert(shift_in(iv, cipher.take(0)) =~= iv);
        while i < data.len()
            invariant
                i <= data@.len(),
                data@.len() == cipher.len(),
                self.shared_token@ == key,
                self.encrypter == old(self).encrypter,
                data@.take(i as int) == cfb8_decrypt(key, iv, cipher).take(i as int),
                data@.skip(i as int) == cipher.skip(i as int),
                self.decrypter@ == shift_in(iv, cipher.take(i as int)),
            decreases data@.len() - i,
        {
            assert(data@[i as int] == data@.skip(i as int)[0]);
            let ghost done = data@.take(i as int);
            let ghost prev = data@;
            let (out, next) = cfb8_decrypt_byte(&self.shared_token, &self.decrypter, data[i]);
            data[i] = out;
            self.decrypter = next;
            proof {
                assert(data@ == prev.update(i as int, out));
                assert forall|j: int| i < j < cipher.len() implies data@[j] == cipher[j] by {
                    assert(prev[j] == prev.skip(i as int)[j - i]);
                }
                assert(data@.take(i + 1) =~= done.push(out));
                assert(data@.take(i + 1) =~= cfb8_decrypt(key, iv, cipher).take(i + 1));
                assert(data@.skip(i + 1) =~= cipher.skip(i + 1));
                assert(shift_in(iv, cipher.take(i + 1)) =~= shift_in(iv, cipher.take(i as int)).skip(
                    1,
                ).push(cipher[i as int]));
            }
            i = i + 1;
        }
        assert(data@.take(i as int) =~= data@);
        assert(cipher.take(i as int) =~= cipher);
        assert(cfb8_decrypt(key, iv, cipher).take(i as int) =~= cfb8_decrypt(key, iv, cipher));
    }
}

/// Size of the buffer that a packet is written into before it is sent. A
/// packet has to stay below it.
pub const PACKET_WRITE_BUFFER_SIZE: usize = 4096;

/// Number of random bytes that a client has to send back encrypted.
pub const VERIFY_TOKEN_SIZE: usize = 64;

/// What is kept of a login between its start and the answer to the
/// encryption request.
#[derive(Debug)]
pub struct PlayerLoginContext {
    pub verify_token: Option<Vec<u8>>,
    pub uuid: UUID4,
    pub username: String,
}

/// What a pending login holds.
pub struct LoginView {
    pub verify_token: Option<Seq<u8>>,
    pub uuid: u128,
    pub username: Seq<char>,
}

impl View for PlayerLoginContext {
    type V = LoginView;

    open spec fn view(&self) -> LoginView {
        LoginView {
            verify_token: match self.verify_token {
                Some(t) => Some(t@),
                None => None,
            },
            uuid: self.uuid.raw,
            username: self.username@,
        }
    }
}

/// The state of one connection: its phase, the pending login and the
/// cipher, once there is one.
#[derive(Debug)]
pub struct PlayerContext {
    pub state: State,
    pub login_context: Option<PlayerLoginContext>,
    pub encryption_context: Option<PlayerEncryptionContext>,
}

/// What the state of a connection holds.
pub struct ContextView {
    pub state: State,
    pub login: Option<LoginView>,
    pub cipher: Option<CipherView>,
}

impl ContextView {
    /// The state of a connection that was just accepted.
    pub open spec fn initial() -> ContextView {
        ContextView { state: State::Handshaking, login: None, cipher: None }
    }
}

impl View for PlayerContext {
    type V = ContextView;

    open spec fn view(&self) -> ContextView {
        ContextView {
            state: self.state,
            login: match self.login_context {
                Some(l) => Some(l@),
                None => None,
            },
            cipher: match self.encryption_context {
                Some(c) => Some(c@),
                None => None,
            },
        }
    }
}

impl Default for PlayerContext {
    fn default() -> (r: Self)
        ensures
            r@ == ContextView::initial(),
    {
        Self { state: State::Handshaking, login_context: None, encryption_context: None }
    }
}

/// Why a packet ends the connection.
pub enum Failure {
    /// The login is refused; nothing says which test it failed.
    Unauthorized,
    /// The key pair could not decrypt what the client sent.
    Decryption,
    /// The shared secret has this many bytes and not sixteen.
    SecretLength(nat),
    /// The public key could not be exported.
    Certificate,
}

/// Something that a handler came across and that is worth a line in the
/// log.
#[derive(Clone, Debug, PartialEq, Eq)]
pub enum Notice {
    /// A handshake asked for a transfer, which is not supported.
    TransferUnsupported,
    /// The client named its brand; these are the bytes it sent.
    ClientBrand(Vec<u8>),
}

/// What a notice holds.
pub enum NoticeView {
    TransferUnsupported,
    ClientBrand(Seq<u8>),
}

impl View for Notice {
    type V = NoticeView;

    open spec fn view(&self) -> NoticeView {
        match self {
            Notice::TransferUnsupported => NoticeView::TransferUnsupported,
            Notice::ClientBrand(data) => NoticeView::ClientBrand(data@),
        }
    }
}

/// What an optional notice holds.
pub open spec fn notice_view(notice: Option<Notice>) -> Option<NoticeView> {
    match notice {
        Some(n) => Some(n@),
        None => None,
    }
}

/// What a handler decides on a packet.
pub enum Verdict {
    /// The packet is answered with this one.
    Reply(PacketView),
    /// The packet is taken and not answered.
    Silent,
    /// The packet is taken and not answered, and there is something to log.
    Noted(NoticeView),
    /// The handler of the phase does not know the packet.
    Unhandled,
    /// The connection ends.
    Fail(Failure),
}

/// A handler's decision, and the state of the connection after it.
pub struct Step {
    pub context: ContextView,
    pub verdict: Verdict,
}

/// Whether an error is the one that a failure asks for.
pub open spec fn failure_is(e: MinecraftError, f: Failure) -> bool {
    match f {
        Failure::Unauthorized => e is Unauthorized,
        Failure::Decryption => e matches MinecraftError::EncryptionError(CipherError::Rsa(_)),
        Failure::SecretLength(n) => {
            &&& e matches MinecraftError::EncryptionError(CipherError::SecretLength(m))
            &&& m == n
        },
        Failure::Certificate => e is CertificateParsingError,
    }
}

/// What a handler hands back: the packet where it does not know it, the
/// answer where there is one, whether the connection goes on, and what
/// there is to log.
#[derive(Debug)]
pub struct HandlerOutcome {
    pub leftover: Option<Packet772>,
    pub response: Option<Packet772>,
    pub keep_open: bool,
    pub notice: Option<Notice>,
}

/// Whether what a handler returned and left behind is what `step` asks
/// for, where the handler knows the packet.
pub open spec fn outcome_is(
    step: Step,
    r: Result<HandlerOutcome, MinecraftError>,
    after: ContextView,
) -> bool {
    &&& after == step.context
    &&& match step.verdict {
        Verdict::Reply(v) => {
            &&& r matches Ok(o)
            &&& o.leftover is None
            &&& o.keep_open
            &&& o.notice is None
            &&& o.response matches Some(p)
            &&& p@ == v
        },
        Verdict::Silent => {
            &&& r matches Ok(o)
            &&& o.leftover is None
            &&& o.response is None
            &&& o.notice is None
            &&& o.keep_open
        },
        Verdict::Noted(n) => {
            &&& r matches Ok(o)
            &&& o.leftover is None
            &&& o.response is None
            &&& notice_view(o.notice) == Some(n)
            &&& o.keep_open
        },
        Verdict::Unhandled => false,
        Verdict::Fail(f) => {
            &&& r matches Err(e)
            &&& failure_is(e, f)
        },
    }
}

/// Whether what a handler returned and left behind is what `step` asks for
/// on `packet`: a packet that the handler does not know comes back.
pub open spec fn outcome_matches(
    step: Step,
    packet: Packet772,
    r: Result<HandlerOutcome, MinecraftError>,
    after: ContextView,
) -> bool {
    if step.verdict is Unhandled {
        &&& after == step.context
        &&& r matches Ok(o)
        &&& o.leftover == Some(packet)
        &&& o.response is None
        &&& o.notice is None
        &&& o.keep_open
    } else {
        outcome_is(step, r, after)
    }
}

/// The packet number and the fields behind it.
pub open spec fn payload(v: PacketView) -> Seq<u8> {
    ser_varint(v.id().id) + v.body()
}

/// A packet as one frame: the length of its payload, then the payload.
pub open spec fn frame(v: PacketView) -> Seq<u8> {
    spec_encode(payload(v).len() as u32) + payload(v)
}

/// Whether a packet can be sent: its counts can be announced and its
/// payload stays below the write buffer.
pub open spec fn writable(v: PacketView) -> bool {
    v.fits() && payload(v).len() < PACKET_WRITE_BUFFER_SIZE
}

/// Bytes as they go out: encrypted once the session has a cipher.
pub open spec fn on_wire(cipher: Option<CipherView>, bytes: Seq<u8>) -> Seq<u8> {
    match cipher {
        Some(c) => cfb8_encrypt(c.key, c.encrypter, bytes),
        None => bytes,
    }
}

/// The cipher of a session after `bytes` went out.
pub open spec fn cipher_after_send(cipher: Option<CipherView>, bytes: Seq<u8>) -> Option<
    CipherView,
> {
    match cipher {
        Some(c) => Some(c.after_encrypt(bytes)),
        None => None,
    }
}

/// Turns `data` into what goes out on the transport: encrypted where the
/// session has a cipher, unchanged where it has none.
pub fn write_encryption_transparent(context: &mut PlayerContext, data: &mut Vec<u8>)
    ensures
        final(data)@ == on_wire(old(context)@.cipher, old(data)@),
        final(context)@ == (ContextView {
            cipher: cipher_after_send(old(context)@.cipher, old(data)@),
            ..old(context)@
        }),
{
    match &mut context.encryption_context {
        Some(encryption) => {
            encryption.encrypt_in_place(data);
        },
        None => {},
    }
}

/// Frames a packet and turns it into the bytes to send.
pub fn write_packet(context: &mut PlayerContext, packet: &Packet772) -> (r: Result<
    Vec<u8>,
    MinecraftError,
>)
    ensures
        r is Ok <==> writable(packet@),
        r matches Ok(bytes) ==> ({
            &&& bytes@ == on_wire(old(context)@.cipher, frame(packet@))
            &&& final(context)@ == (ContextView {
                cipher: cipher_after_send(old(context)@.cipher, frame(packet@)),
                ..old(context)@
            })
        }),
        r is Err ==> final(context)@ == old(context)@,
        r matches Err(e) ==> ({
            &&& e matches MinecraftError::SerializeError(s)
            &&& (s == SerializeErr::LengthTooLarge <==> !packet@.fits())
        }),
{
    let mut serializer_backend: [u8; PACKET_WRITE_BUFFER_SIZE] = [0u8; PACKET_WRITE_BUFFER_SIZE];
    let mut serializer = SliceSerializer::create(&mut serializer_backend);
    match packet.id().mc_serialize(&mut serializer) {
        Ok(()) => {},
        Err(e) => { return Err(MinecraftError::SerializeError(e)); },
    }
    match packet.mc_serialize_body(&mut serializer) {
        Ok(()) => {},
        Err(e) => { return Err(MinecraftError::SerializeError(e)); },
    }
    let body = serializer.finish();
    assert(body@ =~= payload(packet@));
    let mut wire = encode_varint(body.len() as u32);
    append_bytes(&mut wire, body);
    assert(wire@ =~= frame(packet@));
    write_encryption_transparent(context, &mut wire);
    Ok(wire)
}

/// What the server decides on a packet: the decision of the handler that
/// the phase selects. In the play phase no packet is known.
pub open spec fn step(
    context: ContextView,
    packet: PacketView,
    encryption: ServerEncryption,
    random: Seq<u8>,
) -> Step {
    match context.state {
        State::Handshaking | State::Status => status_step(context, packet),
        State::Login => login_step(context, packet, encryption, random),
        State::Configuration => configuration_step(context, packet),
        State::Play => Step { context, verdict: Verdict::Unhandled },
    }
}

/// What processing a packet hands back: the bytes to send, whether the
/// connection goes on, the identifier of the packet where no handler took
/// it, and what there is to log.
#[derive(Debug)]
pub struct ProcessOutcome {
    pub outbound: Vec<u8>,
    pub keep_open: bool,
    pub unhandled: Option<Id>,
    pub notice: Option<Notice>,
}

/// Whether `r` and the state `after` are what sending the answer `v` from
/// the state `context` gives: the frame of the answer, encrypted where the
/// session has a cipher by then, or an error where the answer cannot be
/// written.
pub open spec fn answered(
    context: ContextView,
    v: PacketView,
    r: Result<ProcessOutcome, MinecraftError>,
    after: ContextView,
) -> bool {
    if writable(v) {
        &&& r matches Ok(o)
        &&& o.keep_open
        &&& o.unhandled is None
        &&& o.notice is None
        &&& o.outbound@ == on_wire(context.cipher, frame(v))
        &&& after == (ContextView { cipher: cipher_after_send(context.cipher, frame(v)), ..context })
    } else {
        &&& r matches Err(e)
        &&& e matches MinecraftError::SerializeError(s)
        &&& (s == SerializeErr::LengthTooLarge <==> !v.fits())
        &&& after == context
    }
}

/// Whether `r` and the state `after` are what `step` asks for on a packet
/// with the identifier `id`.
pub open spec fn processed(
    step: Step,
    id: Id,
    r: Result<ProcessOutcome, MinecraftError>,
    after: ContextView,
) -> bool {
    match step.verdict {
        Verdict::Reply(v) => answered(step.context, v, r, after),
        Verdict::Silent => {
            &&& r matches Ok(o)
            &&& o.keep_open
            &&& o.unhandled is None
            &&& o.notice is None
            &&& o.outbound@.len() == 0
            &&& after == step.context
        },
        Verdict::Noted(n) => {
            &&& r matches Ok(o)
            &&& o.keep_open
            &&& o.unhandled is None
            &&& notice_view(o.notice) == Some(n)
            &&& o.outbound@.len() == 0
            &&& after == step.context
        },
        Verdict::Unhandled => {
            &&& r matches Ok(o)
            &&& o.keep_open
            &&& o.unhandled == Some(id)
            &&& o.notice is None
            &&& o.outbound@.len() == 0
            &&& after == step.context
        },
        Verdict::Fail(f) => {
            &&& r matches Err(e)
            &&& failure_is(e, f)
            &&& after == step.context
        },
    }
}

/// Hands a packet to the handler of the current phase and frames the
/// answer, if there is one. A packet that the handler does not know is
/// passed over. `random` is what the verify token of a login that starts is
/// made of.
pub fn process_packet(
    packet: Packet772,
    context: &mut PlayerContext,
    encryption: &ServerEncryption,
    random: &[u8; VERIFY_TOKEN_SIZE],
) -> (r: Result<ProcessOutcome, MinecraftError>)
    ensures
        processed(
            step(old(context)@, packet@, *encryption, random@),
            packet@.id(),
            r,
            final(context)@,
        ),
{
    let ghost before = context@;
    let ghost view = packet@;
    let handled = match context.state {
        State::Handshaking | State::Status => handle_status_packets(packet, context),
        State::Login => handle_login_packets(packet, context, encryption, random),
        State::Configuration => handle_configuration_packet(packet, context),
        State::Play => Ok(
            HandlerOutcome { leftover: Some(packet), response: None, keep_open: true, notice: None },
        ),
    };
    let outcome = match handled {
        Ok(o) => o,
        Err(e) => { return Err(e); },
    };
    let unhandled = match &outcome.leftover {
        Some(leftover) => Some(leftover.id()),
        None => None,
    };
    match outcome.response {
        Some(response) => {
            let outbound = match write_packet(context, &response) {
                Ok(bytes) => bytes,
                Err(e) => { return Err(e); },
            };
            Ok(
                ProcessOutcome {
                    outbound,
                    keep_open: outcome.keep_open,
                    unhandled,
                    notice: outcome.notice,
                },
            )
        },
        None => Ok(
            ProcessOutcome {
                outbound: Vec::new(),
                keep_open: outcome.keep_open,
                unhandled,
                notice: outcome.notice,
            },
        ),
    }
}

/// Bytes that go into the register one after the other leave it as they
/// would have, had they gone in at once.
pub proof fn lemma_shift_in_concat(iv: Seq<u8>, a: Seq<u8>, b: Seq<u8>)
    ensures
        shift_in(shift_in(iv, a), b) == shift_in(iv, a + b),
{
    assert(shift_in(shift_in(iv, a), b) =~= shift_in(iv, a + b));
}

/// The plaintext of the front of a stream is the front of the plaintext of
/// the stream.
pub proof fn lemma_decrypt_prefix(key: Seq<u8>, iv: Seq<u8>, data: Seq<u8>, k: int)
    requires
        0 <= k <= data.len(),
    ensures
        cfb8_decrypt(key, iv, data.take(k)) == cfb8_decrypt(key, iv, data).take(k),
{
    assert forall|i: int| 0 <= i < k implies data.take(k).take(i) == data.take(i) by {
        assert(data.take(k).take(i) =~= data.take(i));
    }
    assert(cfb8_decrypt(key, iv, data.take(k)) =~= cfb8_decrypt(key, iv, data).take(k));
}

/// Decrypting a stream in two pieces, the register moving on in between,
/// gives what decrypting it at once gives.
pub proof fn lemma_decrypt_concat(key: Seq<u8>, iv: Seq<u8>, a: Seq<u8>, b: Seq<u8>)
    ensures
        cfb8_decrypt(key, iv, a + b) == cfb8_decrypt(key, iv, a) + cfb8_decrypt(
            key,
            shift_in(iv, a),
            b,
        ),
{
    let whole = cfb8_decrypt(key, iv, a + b);
    let parts = cfb8_decrypt(key, iv, a) + cfb8_decrypt(key, shift_in(iv, a), b);
    assert forall|i: int| 0 <= i < whole.len() implies whole[i] == parts[i] by {
        if i < a.len() {
            assert((a + b).take(i) =~= a.take(i));
        } else {
            let j = i - a.len();
            assert((a + b).take(i) =~= a + b.take(j));
            lemma_shift_in_concat(iv, a, b.take(j));
        }
    }
    assert(whole =~= parts);
}

/// The ciphertext of the front of a stream is the front of the ciphertext
/// of the stream.
pub proof fn lemma_encrypt_prefix(key: Seq<u8>, iv: Seq<u8>, data: Seq<u8>, k: int)
    requires
        0 <= k <= data.len(),
    ensures
        cfb8_encrypt(key, iv, data.take(k)) == cfb8_encrypt(key, iv, data).take(k),
        cfb8_encrypt(key, iv, data).len() == data.len(),
    decreases data.len(),
{
    if data.len() > 0 {
        lemma_encrypt_prefix(key, iv, data.drop_last(), if k < data.len() { k } else { 0 });
        if k < data.len() {
            assert(data.drop_last().take(k) =~= data.take(k));
            assert(cfb8_encrypt(key, iv, data).take(k) =~= cfb8_encrypt(
                key,
                iv,
                data.drop_last(),
            ).take(k));
        } else {
            assert(data.take(k) =~= data);
            assert(cfb8_encrypt(key, iv, data).take(k) =~= cfb8_encrypt(key, iv, data));
        }
    } else {
        assert(data.take(k) =~= data);
        assert(cfb8_encrypt(key, iv, data).take(k) =~= cfb8_encrypt(key, iv, data));
    }
}

/// Encrypting a stream in two pieces, the register moving on in between,
/// gives what encrypting it at once gives: the cipher may be fed in chunks
/// of any size, as long as every byte passes through it in order.
pub proof fn lemma_encrypt_concat(key: Seq<u8>, iv: Seq<u8>, a: Seq<u8>, b: Seq<u8>)
    ensures
        cfb8_encrypt(key, iv, a + b) == cfb8_encrypt(key, iv, a) + cfb8_encrypt(
            key,
            shift_in(iv, cfb8_encrypt(key, iv, a)),
            b,
        ),
    decreases b.len(),
{
    let first = cfb8_encrypt(key, iv, a);
    let moved = shift_in(iv, first);
    if b.len() == 0 {
        assert(a + b =~= a);
        assert(first + cfb8_encrypt(key, moved, b) =~= first);
    } else {
        lemma_encrypt_concat(key, iv, a, b.drop_last());
        assert((a + b).drop_last() =~= a + b.drop_last());
        assert((a + b).last() == b.last());
        let before = cfb8_encrypt(key, moved, b.drop_last());
        lemma_shift_in_concat(iv, first, before);
        assert(cfb8_encrypt(key, iv, a + b) =~= first + cfb8_encrypt(key, moved, b));
    }
}

/// What one peer encrypts, the other decrypts to what it was, as long as
/// both started from the same key and register.
pub proof fn lemma_decrypt_inverts_encrypt(key: Seq<u8>, iv: Seq<u8>, data: Seq<u8>)
    ensures
        cfb8_decrypt(key, iv, cfb8_encrypt(key, iv, data)) == data,
{
    let sent = cfb8_encrypt(key, iv, data);
    lemma_encrypt_prefix(key, iv, data, 0);
    let back = cfb8_decrypt(key, iv, sent);
    assert forall|i: int| 0 <= i < data.len() implies back[i] == data[i] by {
        lemma_encrypt_prefix(key, iv, data, i);
        lemma_encrypt_prefix(key, iv, data, i + 1);
        let front = cfb8_encrypt(key, iv, data.take(i));
        assert(data.take(i + 1).drop_last() =~= data.take(i));
        assert(sent.take(i + 1)[i] == sent[i]);
        let k = aes128_cfb8_keystream(key, shift_in(iv, front));
        let d = data[i];
        assert((d ^ k) ^ k == d) by (bit_vector);
    }
    assert(back =~= data);
}

/// The two ends of a direction stay in step: where the sender's register
/// for it equals the receiver's and the keys agree, the receiver reads what
/// the sender wrote, and the registers are equal again afterwards.
pub proof fn lemma_peers_in_lockstep(sender: CipherView, receiver: CipherView, data: Seq<u8>)
    requires
        sender.key == receiver.key,
        sender.encrypter == receiver.decrypter,
    ensures
        on_wire(Some(sender), data).len() == data.len(),
        cfb8_decrypt(receiver.key, receiver.decrypter, on_wire(Some(sender), data)) == data,
        receiver.after_decrypt(on_wire(Some(sender), data)).decrypter == sender.after_encrypt(
            data,
        ).encrypter,
{
    lemma_decrypt_inverts_encrypt(sender.key, sender.encrypter, data);
    lemma_encrypt_prefix(sender.key, sender.encrypter, data, 0);
}

/// A verify token serves once: whatever the first answer to an encryption
/// request came to, a second answer in the same login is refused.
pub proof fn lemma_verify_token_serves_once(
    context: ContextView,
    first: PacketView,
    second: PacketView,
    encryption: ServerEncryption,
    random: Seq<u8>,
)
    requires
        context.state == State::Login,
        first is LoginEncryptionResponse,
        second is LoginEncryptionResponse,
    ensures
        step(step(context, first, encryption, random).context, second, encryption, random).verdict
            == Verdict::Fail(Failure::Unauthorized),
        step(step(context, first, encryption, random).context, second, encryption, random).context
            == step(context, first, encryption, random).context,
{
}

/// The acknowledgement of a login counts in the login phase alone: in every
/// other phase it is not known, and nothing changes.
pub proof fn lemma_login_acknowledged_needs_login_phase(
    context: ContextView,
    encryption: ServerEncryption,
    random: Seq<u8>,
)
    requires
        context.state != State::Login,
    ensures
        step(context, PacketView::LoginAcknowledged, encryption, random).verdict
            == Verdict::Unhandled,
        step(context, PacketView::LoginAcknowledged, encryption, random).context == context,
{
}

/// Only a login that succeeds installs a cipher: a step leaves the cipher
/// of the session as it was unless it answers with a login success.
pub proof fn lemma_cipher_needs_login_success(
    context: ContextView,
    packet: PacketView,
    encryption: ServerEncryption,
    random: Seq<u8>,
)
    ensures
        step(context, packet, encryption, random).context.cipher != context.cipher ==> step(
            context,
            packet,
            encryption,
            random,
        ).verdict matches Verdict::Reply(PacketView::LoginSuccess { .. }),
{
}

} // verus!
