//! The handler of the login phase: the encryption handshake.

use crate::encryption::ServerEncryption;
use crate::errors::{CipherError, MinecraftError};
use crate::packets::{
    failure_is, outcome_is, outcome_matches, CipherView, ContextView, Failure, HandlerOutcome,
    LoginView, PlayerContext, PlayerEncryptionContext, PlayerLoginContext, Step, Verdict,
    VERIFY_TOKEN_SIZE,
};
use crate::protocol::State;
use crate::types::bytes_equal;
use crate::v1_21_8::{
    LoginEncryptionRequestSpec, LoginStartSpec, LoginSuccessSpec, Packet772, PacketView,
};
use vstd::prelude::*;

verus! {

/// What the start of a login comes to, given the export of the public key:
/// where there is one, the client is asked to encrypt a shared secret and
/// the random token under it, and the token is kept with the client's name
/// and identifier.
pub open spec fn encryption_requested(
    context: ContextView,
    name: Seq<char>,
    uuid: u128,
    exported: Option<Seq<u8>>,
    random: Seq<u8>,
) -> Step {
    match exported {
        None => Step { context, verdict: Verdict::Fail(Failure::Certificate) },
        Some(der) => Step {
            context: ContextView {
                login: Some(LoginView { verify_token: Some(random), uuid, username: name }),
                ..context
            },
            verdict: Verdict::Reply(
                PacketView::LoginEncryptionRequest {
                    server_id: Seq::empty(),
                    public_key: der,
                    verify_token: random,
                    should_authenticate: false,
                },
            ),
        },
    }
}

/// The token that a pending login still holds, if there is a login and it
/// holds one.
pub open spec fn issued_token(context: ContextView) -> Option<Seq<u8>> {
    match context.login {
        Some(login) => login.verify_token,
        None => None,
    }
}

/// The session with the token of its pending login used up.
pub open spec fn token_used(context: ContextView) -> ContextView {
    match context.login {
        Some(login) => ContextView {
            login: Some(LoginView { verify_token: None, ..login }),
            ..context
        },
        None => context,
    }
}

/// Why a token that came back is refused, if it is: it could not be
/// decrypted, or it is not the token that was issued, byte for byte.
pub open spec fn token_refusal(issued: Seq<u8>, returned: Option<Seq<u8>>) -> Option<Failure> {
    match returned {
        None => Some(Failure::Decryption),
        Some(bytes) => if bytes == issued {
            None
        } else {
            Some(Failure::Unauthorized)
        },
    }
}

/// What a login whose token was accepted comes to, given the shared secret
/// as it was decrypted: a secret of sixteen bytes becomes the key of the
/// session cipher, and the login succeeds under the name and identifier
/// that it started with.
pub open spec fn session_installed(context: ContextView, secret: Option<Seq<u8>>) -> Step {
    match context.login {
        None => Step { context, verdict: Verdict::Fail(Failure::Unauthorized) },
        Some(login) => match secret {
            None => Step { context, verdict: Verdict::Fail(Failure::Decryption) },
            Some(key) => if key.len() != 16 {
                Step { context, verdict: Verdict::Fail(Failure::SecretLength(key.len())) }
            } else {
                Step {
                    context: ContextView { cipher: Some(CipherView::fresh(key)), ..context },
                    verdict: Verdict::Reply(
                        PacketView::LoginSuccess {
                            uuid: login.uuid,
                            username: login.username,
                            properties: Seq::empty(),
                        },
                    ),
                }
            },
        },
    }
}

/// What the handler decides on the client's answer. Without a pending
/// login, or with its token used up, the login is refused. Otherwise the
/// token is used up, whatever follows. The client has to have sent the
/// token back, encrypted under the public key; then the secret that it sent
/// the same way is looked at.
pub open spec fn encryption_response_step(
    context: ContextView,
    shared_secret: Seq<u8>,
    verify_token: Seq<u8>,
    encryption: ServerEncryption,
) -> Step {
    match issued_token(context) {
        None => Step { context, verdict: Verdict::Fail(Failure::Unauthorized) },
        Some(issued) => match token_refusal(issued, encryption.decrypted(verify_token)) {
            Some(failure) => Step { context: token_used(context), verdict: Verdict::Fail(failure) },
            None => session_installed(token_used(context), encryption.decrypted(shared_secret)),
        },
    }
}

/// What the handler decides: the two packets of the handshake, the
/// acknowledgement of a login, which moves the phase from `Login` on to
/// `Configuration`, and every other packet, which is not known here.
pub open spec fn login_step(
    context: ContextView,
    packet: PacketView,
    encryption: ServerEncryption,
    random: Seq<u8>,
) -> Step {
    match packet {
        PacketView::LoginStart { name, uuid } => encryption_requested(
            context,
            name,
            uuid,
            encryption.public_der(),
            random,
        ),
        PacketView::LoginEncryptionResponse {
            shared_secret,
            verify_token,
        } => encryption_response_step(context, shared_secret, verify_token, encryption),
        PacketView::LoginAcknowledged => Step {
            context: ContextView {
                state: if context.state == State::Login {
                    State::Configuration
                } else {
                    context.state
                },
                ..context
            },
            verdict: Verdict::Silent,
        },
        _ => Step { context, verdict: Verdict::Unhandled },
    }
}

/// The bytes of a key export, or of a decryption, that went well.
pub open spec fn bytes_of<E>(r: Result<Vec<u8>, E>) -> Option<Seq<u8>> {
    match r {
        Ok(bytes) => Some(bytes@),
        Err(_) => None,
    }
}

/// Starts a login, given what the export of the public key gave: asks the
/// client for encryption and keeps the token `random`.
pub fn request_encryption(
    start: LoginStartSpec,
    context: &mut PlayerContext,
    exported: Result<Vec<u8>, rsa::pkcs8::spki::Error>,
    random: &[u8; VERIFY_TOKEN_SIZE],
) -> (r: Result<HandlerOutcome, MinecraftError>)
    ensures
        outcome_is(
            encryption_requested(
                old(context)@,
                start.name@,
                start.uuid.raw,
                bytes_of(exported),
                random@,
            ),
            r,
            final(context)@,
        ),
{
    let spki = match exported {
        Ok(der) => der,
        Err(e) => { return Err(MinecraftError::CertificateParsingError(e)); },
    };
    let token = vstd::slice::slice_to_vec(random.as_slice());
    let issued = vstd::slice::slice_to_vec(random.as_slice());
    let encryption_request = Packet772::LoginEncryptionRequest(
        LoginEncryptionRequestSpec {
            server_id: String::new(),
            public_key: spki,
            verify_token: issued,
            should_authenticate: false,
        },
    );
    context.login_context = Some(
        PlayerLoginContext { verify_token: Some(token), uuid: start.uuid, username: start.name },
    );
    Ok(
        HandlerOutcome {
            leftover: None,
            response: Some(encryption_request),
            keep_open: true,
            notice: None,
        },
    )
}

/// Takes the token out of the pending login: it serves once.
pub fn take_verify_token(context: &mut PlayerContext) -> (r: Option<Vec<u8>>)
    ensures
        match r {
            Some(token) => issued_token(old(context)@) == Some(token@),
            None => issued_token(old(context)@) is None,
        },
        r is Some ==> final(context)@ == token_used(old(context)@),
        r is None ==> final(context)@ == old(context)@,
{
    match context.login_context.take() {
        None => None,
        Some(login) => match login.verify_token {
            None => {
                context.login_context = Some(login);
                None
            },
            Some(token) => {
                context.login_context = Some(
                    PlayerLoginContext {
                        verify_token: None,
                        uuid: login.uuid,
                        username: login.username,
                    },
                );
                Some(token)
            },
        },
    }
}

/// Holds the token that came back, as it was decrypted, against the one
/// that was issued.
pub fn check_verify_token(issued: &[u8], returned: Result<Vec<u8>, rsa::Error>) -> (r: Result<
    (),
    MinecraftError,
>)
    ensures
        match token_refusal(issued@, bytes_of(returned)) {
            None => r is Ok,
            Some(failure) => r matches Err(e) && failure_is(e, failure),
        },
{
    let decrypted_verify = match returned {
        Ok(v) => v,
        Err(e) => { return Err(MinecraftError::EncryptionError(CipherError::Rsa(e))); },
    };
    if !bytes_equal(decrypted_verify.as_slice(), issued) {
        return Err(MinecraftError::Unauthorized);
    }
    Ok(())
}

/// Ends a login whose token was accepted, given the shared secret as it
/// was decrypted: installs the cipher and answers with the login success.
pub fn install_session(context: &mut PlayerContext, secret: Result<Vec<u8>, rsa::Error>) -> (r:
    Result<HandlerOutcome, MinecraftError>)
    ensures
        outcome_is(session_installed(old(context)@, bytes_of(secret)), r, final(context)@),
{
    let (uuid, name) = match &context.login_context {
        None => { return Err(MinecraftError::Unauthorized); },
        Some(login) => (login.uuid, login.username.clone()),
    };
    let decrypted_secret = match secret {
        Ok(v) => v,
        Err(e) => { return Err(MinecraftError::EncryptionError(CipherError::Rsa(e))); },
    };
    if decrypted_secret.len() != 16 {
        return Err(
            MinecraftError::EncryptionError(CipherError::SecretLength(decrypted_secret.len())),
        );
    }
    context.encryption_context = Some(PlayerEncryptionContext::new(decrypted_secret));
    let login_success = Packet772::LoginSuccess(
        LoginSuccessSpec { uuid, username: name, properties: Vec::new() },
    );
    assert(login_success@->LoginSuccess_properties =~= Seq::empty());
    Ok(
        HandlerOutcome {
            leftover: None,
            response: Some(login_success),
            keep_open: true,
            notice: None,
        },
    )
}

/// Handles a packet while the phase is `Login`. `random` is what the
/// verify token of a login that starts is made of.
pub fn handle_login_packets(
    packet: Packet772,
    context: &mut PlayerContext,
    encryption: &ServerEncryption,
    random: &[u8; VERIFY_TOKEN_SIZE],
) -> (r: Result<HandlerOutcome, MinecraftError>)
    ensures
        outcome_matches(
            login_step(old(context)@, packet@, *encryption, random@),
            packet,
            r,
            final(context)@,
        ),
{
    match packet {
        Packet772::LoginStart(spec) => {
            let exported = encryption.export_public_key();
            request_encryption(spec, context, exported, random)
        },
        Packet772::LoginEncryptionResponse(spec) => {
            let issued = match take_verify_token(context) {
                Some(token) => token,
                None => { return Err(MinecraftError::Unauthorized); },
            };
            let returned = encryption.decrypt_data(spec.verify_token.as_slice());
            match check_verify_token(issued.as_slice(), returned) {
                Ok(()) => {},
                Err(e) => { return Err(e); },
            }
            let secret = encryption.decrypt_data(spec.shared_secret.as_slice());
            install_session(context, secret)
        },
        Packet772::LoginAcknowledged(_) => {
            match context.state {
                State::Login => {
                    context.state = State::Configuration;
                },
                _ => {},
            }
            Ok(HandlerOutcome { leftover: None, response: None, keep_open: true, notice: None })
        },
        _ => Ok(
            HandlerOutcome { leftover: Some(packet), response: None, keep_open: true, notice: None },
        ),
    }
}

} // verus!
