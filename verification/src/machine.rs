//! Enrollment state machine: sequences the two protocol exchanges of one
//! handshake session. The opening message must carry the server's challenge;
//! the registration echoes it, is sealed by the proof-of-work solver, and the
//! server's outcome closes the session.

use vstd::prelude::*;
use crate::codec::{
    be16, encode, project_code, read_tail, spec_encoded, spec_frame_len, wf_body, BodyView,
    EnrollError, EnrollRegister, Message, MessageBody, Project, MAGIC_ENROLL_REGISTER,
};
use crate::solver::{meets_difficulty, sha256_hex, solve, with_nonce};

verus! {

/// Byte offset of the nonce field within an encoded registration frame: the
/// 4-byte header, 8 bytes of challenge, and 2 + 2 bytes of team number and
/// project code.
pub const NONCE_OFFSET: usize = 16;

/// Leading bytes of a frame excluded from the proof-of-work digest: the
/// length prefix and the magic number.
pub const HEADER_WIDTH: usize = 4;

/// Required count of leading `'0'` hex digits in the proof-of-work digest.
pub const POW_DIFFICULTY: usize = 6;

/// The configured identity sent in a registration: team number, project
/// choice, and the opaque trailing payload.
#[derive(Debug, Clone, PartialEq, Eq)]
pub struct Config {
    pub team_number: u16,
    pub project_choice: Project,
    pub string_payload: Vec<u8>,
}

/// The sequence of characters a byte sequence decodes to under UTF-8, if it
/// is valid UTF-8.
pub uninterp spec fn utf8_decode(bytes: Seq<u8>) -> Option<Seq<char>>;

/// Relies on `String::from_utf8`, which returns the string of the bytes
/// exactly when they are valid UTF-8; the result depends on the bytes alone.
#[verifier::external_body]
fn utf8_to_string(bytes: Vec<u8>) -> (r: Option<String>)
    ensures
        match r {
            Some(s) => utf8_decode(bytes@) == Some(s@),
            None => utf8_decode(bytes@) is None,
        },
{
    String::from_utf8(bytes).ok()
}

/// How a finished handshake ended.
#[derive(Debug, PartialEq, Eq)]
pub enum Outcome {
    Succeeded { team_number: u16 },
    Failed { error_number: u16, error_description: String },
}

/// The handshake's position between the two exchanges.
#[derive(Debug, PartialEq, Eq)]
pub enum HandshakeState {
    AwaitInit,
    AwaitResult,
    Done(Outcome),
}

/// One handshake session: the configured identity and the current state.
#[derive(Debug)]
pub struct Handshake {
    pub config: Config,
    pub state: HandshakeState,
}

/// An encoded registration frame sealed by the solver: the length prefix
/// counting the whole frame, the registration magic number, the echoed
/// challenge, the configured identity, some eight-byte nonce, and a digest
/// of the frame's body meeting the difficulty.
pub open spec fn sealed_register(
    buf: Seq<u8>,
    challenge: Seq<u8>,
    team_number: u16,
    project_choice: Project,
    payload: Seq<u8>,
    difficulty: nat,
) -> bool {
    &&& buf.len() == 24 + payload.len()
    &&& buf.subrange(0, 2) == be16((24 + payload.len()) as u16)
    &&& buf.subrange(2, 4) == be16(MAGIC_ENROLL_REGISTER)
    &&& buf.subrange(4, 12) == challenge
    &&& buf.subrange(12, 14) == be16(team_number)
    &&& buf.subrange(14, 16) == be16(project_code(project_choice))
    &&& buf.skip(24) == payload
    &&& meets_difficulty(sha256_hex(buf.skip(4)), difficulty)
}

/// No nonce seals the registration built for this challenge and identity:
/// neither the frame as encoded with the all-zero nonce nor any 64-bit
/// candidate written into its nonce window gives a digest meeting the
/// difficulty.
pub open spec fn pow_exhausted(challenge: Seq<u8>, config: Config, difficulty: nat) -> bool {
    let unsealed = spec_encoded(
        (BodyView::EnrollRegister {
            challenge,
            team_number: config.team_number,
            project_choice: config.project_choice,
            nonce: Seq::new(8, |i: int| 0u8),
            string_payload: config.string_payload@,
        }),
    );
    &&& !meets_difficulty(sha256_hex(unsealed.skip(HEADER_WIDTH as int)), difficulty)
    &&& forall|c: u64|
        !meets_difficulty(
            sha256_hex(with_nonce(unsealed, NONCE_OFFSET as int, c).skip(HEADER_WIDTH as int)),
            difficulty,
        )
}

/// The byte layout of an encoded registration frame.
pub open spec fn register_layout(b: BodyView, f: Seq<u8>) -> bool {
    match b {
        BodyView::EnrollRegister { challenge, team_number, project_choice, nonce, string_payload } => {
            &&& f.len() == 24 + string_payload.len()
            &&& f.subrange(0, 2) == be16((24 + string_payload.len()) as u16)
            &&& f.subrange(2, 4) == be16(MAGIC_ENROLL_REGISTER)
            &&& f.subrange(4, 12) == challenge
            &&& f.subrange(12, 14) == be16(team_number)
            &&& f.subrange(14, 16) == be16(project_code(project_choice))
            &&& f.subrange(16, 24) == nonce
            &&& f.skip(24) == string_payload
        },
        _ => false,
    }
}

/// The encoding of a well-formed registration body lays its fields out at
/// the fixed offsets, with the trailing payload taking the rest.
pub proof fn lemma_register_layout(b: BodyView)
    requires
        b matches BodyView::EnrollRegister { .. },
        wf_body(b),
        spec_frame_len(b) <= 0xFFFF,
    ensures
        register_layout(b, spec_encoded(b)),
{
    let f = spec_encoded(b);
    match b {
        BodyView::EnrollRegister {
            challenge,
            team_number,
            project_choice,
            nonce,
            string_payload,
        } => {
            assert(f.subrange(0, 2) =~= be16((24 + string_payload.len()) as u16));
            assert(f.subrange(2, 4) =~= be16(MAGIC_ENROLL_REGISTER));
            assert(f.subrange(4, 12) =~= challenge);
            assert(f.subrange(12, 14) =~= be16(team_number));
            assert(f.subrange(14, 16) =~= be16(project_code(project_choice)));
            assert(f.subrange(16, 24) =~= nonce);
            assert(f.skip(24) =~= string_payload);
        },
        _ => {},
    }
}

/// Builds the registration message echoing `challenge`, with the configured
/// identity and an all-zero nonce.
pub fn build_register(challenge: &[u8; 8], config: &Config) -> (m: Message)
    ensures
        m@ == (BodyView::EnrollRegister {
            challenge: challenge@,
            team_number: config.team_number,
            project_choice: config.project_choice,
            nonce: Seq::new(8, |i: int| 0u8),
            string_payload: config.string_payload@,
        }),
{
    let payload = read_tail(&config.string_payload, 0);
    proof {
        assert(payload@ =~= config.string_payload@);
    }
    let nonce: [u8; 8] = [0; 8];
    proof {
        assert(nonce@ =~= Seq::new(8, |i: int| 0u8));
    }
    Message {
        body: MessageBody::EnrollRegister(EnrollRegister {
            challenge: *challenge,
            team_number: config.team_number,
            project_choice: config.project_choice,
            nonce,
            string_payload: payload,
        }),
    }
}

/// Handles the opening message of a session: anything but `EnrollInit` is
/// out of sequence; otherwise the registration echoing the received
/// challenge is built, encoded and sealed by the solver, and the frame to
/// transmit is returned.
pub fn handle_init(msg: &Message, config: &Config) -> (r: Result<Vec<u8>, EnrollError>)
    ensures
        match r {
            Ok(buf) => (msg@ matches BodyView::EnrollInit { challenge } && sealed_register(
                buf@,
                challenge,
                config.team_number,
                config.project_choice,
                config.string_payload@,
                POW_DIFFICULTY as nat,
            )),
            Err(e) => {
                ||| e == EnrollError::ProtocolError
                ||| e == EnrollError::EncodingOverflow
                ||| e == EnrollError::ProofOfWorkExhausted
            },
        },
        !(msg@ matches BodyView::EnrollInit { .. }) <==> r == Err::<Vec<u8>, EnrollError>(
            EnrollError::ProtocolError,
        ),
        ((msg@ matches BodyView::EnrollInit { .. }) && 24 + config.string_payload@.len() > 0xFFFF)
            <==> r == Err::<Vec<u8>, EnrollError>(EnrollError::EncodingOverflow),
        r == Err::<Vec<u8>, EnrollError>(EnrollError::ProofOfWorkExhausted) ==> (msg@ matches
            BodyView::EnrollInit { challenge } && pow_exhausted(
            challenge,
            *config,
            POW_DIFFICULTY as nat,
        )),
{
    let init = match &msg.body {
        MessageBody::EnrollInit(init) => init,
        _ => {
            return Err(EnrollError::ProtocolError);
        },
    };
    let register = build_register(&init.challenge, config);
    let mut buf = match encode(&register) {
        Ok(buf) => buf,
        Err(e) => {
            return Err(e);
        },
    };
    proof {
        lemma_register_layout(register@);
    }
    let ghost unsealed = buf@;
    match solve(&mut buf, NONCE_OFFSET, HEADER_WIDTH, POW_DIFFICULTY) {
        Ok(u) => {
            proof {
                assert(buf@.subrange(0, 2) =~= unsealed.subrange(0, 2));
                assert(buf@.subrange(2, 4) =~= unsealed.subrange(2, 4));
                assert(buf@.subrange(4, 12) =~= unsealed.subrange(4, 12));
                assert(buf@.subrange(12, 14) =~= unsealed.subrange(12, 14));
                assert(buf@.subrange(14, 16) =~= unsealed.subrange(14, 16));
                assert(buf@.skip(24) =~= unsealed.skip(24));
            }
            Ok(buf)
        },
        Err(e) => Err(e),
    }
}

/// Handles the outcome message of a session: a success carries the assigned
/// team number, a failure its error number and UTF-8 description, and
/// anything else is out of sequence.
pub fn handle_result(msg: Message) -> (r: Result<Outcome, EnrollError>)
    ensures
        match msg@ {
            BodyView::EnrollInit { .. } => r == Err::<Outcome, EnrollError>(
                EnrollError::ProtocolError,
            ),
            BodyView::EnrollRegister { .. } => r == Err::<Outcome, EnrollError>(
                EnrollError::ProtocolError,
            ),
            BodyView::EnrollSuccess { reserved, team_number } => r == Ok::<Outcome, EnrollError>(
                Outcome::Succeeded { team_number },
            ),
            BodyView::EnrollFailure { reserved, error_number, error_description } => match
                utf8_decode(error_description) {
                Some(text) => {
                    &&& r matches Ok(
                        Outcome::Failed { error_number: got, error_description: description },
                    )
                    &&& got == error_number
                    &&& description@ == text
                },
                None => r == Err::<Outcome, EnrollError>(EnrollError::InvalidEncoding),
            },
        },
{
    match msg.body {
        MessageBody::EnrollSuccess(success) => Ok(Outcome::Succeeded {
            team_number: success.team_number,
        }),
        MessageBody::EnrollFailure(failure) => match utf8_to_string(failure.error_description) {
            Some(text) => Ok(Outcome::Failed {
                error_number: failure.error_number,
                error_description: text,
            }),
            None => Err(EnrollError::InvalidEncoding),
        },
        _ => Err(EnrollError::ProtocolError),
    }
}

impl Handshake {
    /// Opens a session awaiting the server's challenge.
    pub fn new(config: Config) -> (h: Handshake)
        ensures
            h.config == config,
            h.state == HandshakeState::AwaitInit,
    {
        Handshake { config, state: HandshakeState::AwaitInit }
    }

    /// Feeds one received message into the session. After the opening
    /// message the sealed registration frame to transmit is returned; after
    /// the outcome message nothing is, and the session is done. A message
    /// out of the expected sequence fails the attempt and leaves the state
    /// as it was.
    pub fn on_message(&mut self, msg: Message) -> (r: Result<Option<Vec<u8>>, EnrollError>)
        ensures
            final(self).config == old(self).config,
            (r matches Err(e)) ==> final(self).state == old(self).state,
            match old(self).state {
                HandshakeState::AwaitInit => match r {
                    Ok(out) => {
                        &&& out matches Some(buf)
                        &&& msg@ matches BodyView::EnrollInit { challenge }
                        &&& sealed_register(
                            buf@,
                            challenge,
                            old(self).config.team_number,
                            old(self).config.project_choice,
                            old(self).config.string_payload@,
                            POW_DIFFICULTY as nat,
                        )
                        &&& final(self).state == HandshakeState::AwaitResult
                    },
                    Err(e) => {
                        &&& {
                            ||| e == EnrollError::ProtocolError
                            ||| e == EnrollError::EncodingOverflow
                            ||| e == EnrollError::ProofOfWorkExhausted
                        }
                        &&& (!(msg@ matches BodyView::EnrollInit { .. }) <==> e
                            == EnrollError::ProtocolError)
                        &&& (((msg@ matches BodyView::EnrollInit { .. }) && 24 + old(
                            self,
                        ).config.string_payload@.len() > 0xFFFF) <==> e
                            == EnrollError::EncodingOverflow)
                        &&& (e == EnrollError::ProofOfWorkExhausted ==> (msg@ matches
                            BodyView::EnrollInit { challenge } && pow_exhausted(
                            challenge,
                            old(self).config,
                            POW_DIFFICULTY as nat,
                        )))
                    },
                },
                HandshakeState::AwaitResult => match r {
                    Ok(out) => out is None && match msg@ {
                        BodyView::EnrollSuccess { reserved, team_number } => final(self).state
                            == HandshakeState::Done(Outcome::Succeeded { team_number }),
                        BodyView::EnrollFailure { reserved, error_number, error_description } => {
                            &&& final(self).state matches HandshakeState::Done(
                                Outcome::Failed {
                                    error_number: got,
                                    error_description: description,
                                },
                            )
                            &&& got == error_number
                            &&& utf8_decode(error_description) == Some(description@)
                        },
                        _ => false,
                    },
                    Err(e) => match msg@ {
                        BodyView::EnrollFailure { error_number, error_description, .. } => e
                            == EnrollError::InvalidEncoding && utf8_decode(error_description)
                            is None,
                        BodyView::EnrollSuccess { .. } => false,
                        _ => e == EnrollError::ProtocolError,
                    },
                },
                HandshakeState::Done(_) => r == Err::<Option<Vec<u8>>, EnrollError>(
                    EnrollError::ProtocolError,
                ) && final(self).state == old(self).state,
            },
    {
        match &self.state {
            HandshakeState::AwaitInit => {
                let buf = handle_init(&msg, &self.config)?;
                self.state = HandshakeState::AwaitResult;
                Ok(Some(buf))
            },
            HandshakeState::AwaitResult => {
                let outcome = handle_result(msg)?;
                self.state = HandshakeState::Done(outcome);
                Ok(None)
            },
            HandshakeState::Done(_) => Err(EnrollError::ProtocolError),
        }
    }
}

} // verus!
