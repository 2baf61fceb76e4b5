//! Wire codec for the enrollment protocol: a length-prefixed frame holding a
//! 16-bit magic number followed by the fields of one of four message variants,
//! all multi-byte integers big-endian.

use vstd::prelude::*;

verus! {

/// Magic number selecting the `EnrollInit` variant.
pub const MAGIC_ENROLL_INIT: u16 = 680;
/// Magic number selecting the `EnrollRegister` variant.
pub const MAGIC_ENROLL_REGISTER: u16 = 681;
/// Magic number selecting the `EnrollSuccess` variant.
pub const MAGIC_ENROLL_SUCCESS: u16 = 682;
/// Magic number selecting the `EnrollFailure` variant.
pub const MAGIC_ENROLL_FAILURE: u16 = 683;

/// Everything that can go wrong in one handshake attempt.
#[derive(Debug, Clone, Copy, PartialEq, Eq, Structural)]
pub enum EnrollError {
    /// Fewer bytes remained than a fixed field requires.
    Truncated,
    /// A discriminant value matching no known variant.
    InvalidMagic,
    /// The body is too large for the 16-bit length field.
    EncodingOverflow,
    /// The 64-bit nonce space was exhausted without a hit.
    ProofOfWorkExhausted,
    /// A message arrived out of the expected sequence.
    ProtocolError,
    /// A text field held bytes that are not valid UTF-8.
    InvalidEncoding,
}

/// A closed set of project choices, each with a fixed 16-bit wire code.
#[derive(Debug, Clone, Copy, PartialEq, Eq, Structural)]
pub enum Project {
    Gossip,
    DHT,
    RPS,
    NSE,
    Onion,
}

/// The server's opening message: a random challenge to echo back.
#[derive(Debug, Clone, PartialEq, Eq)]
pub struct EnrollInit {
    pub challenge: [u8; 8],
}

/// The client's registration: the echoed challenge, identity of the team,
/// the nonce searched over by the solver, and an opaque trailing payload.
#[derive(Debug, Clone, PartialEq, Eq)]
pub struct EnrollRegister {
    pub challenge: [u8; 8],
    pub team_number: u16,
    pub project_choice: Project,
    pub nonce: [u8; 8],
    pub string_payload: Vec<u8>,
}

/// The server's positive outcome.
#[derive(Debug, Clone, PartialEq, Eq)]
pub struct EnrollSuccess {
    pub reserved: u16,
    pub team_number: u16,
}

/// The server's negative outcome, with an UTF-8 description.
#[derive(Debug, Clone, PartialEq, Eq)]
pub struct EnrollFailure {
    pub reserved: u16,
    pub error_number: u16,
    pub error_description: Vec<u8>,
}

/// The tagged union over the four message variants.
#[derive(Debug, Clone, PartialEq, Eq)]
pub enum MessageBody {
    EnrollInit(EnrollInit),
    EnrollRegister(EnrollRegister),
    EnrollSuccess(EnrollSuccess),
    EnrollFailure(EnrollFailure),
}

/// One message on the wire. The length prefix is derived from the body on
/// every serialization, never stored.
#[derive(Debug, Clone, PartialEq, Eq)]
pub struct Message {
    pub body: MessageBody,
}

/// The mathematical model of a message body: byte sequences in place of
/// arrays and vectors.
pub enum BodyView {
    EnrollInit { challenge: Seq<u8> },
    EnrollRegister {
        challenge: Seq<u8>,
        team_number: u16,
        project_choice: Project,
        nonce: Seq<u8>,
        string_payload: Seq<u8>,
    },
    EnrollSuccess { reserved: u16, team_number: u16 },
    EnrollFailure { reserved: u16, error_number: u16, error_description: Seq<u8> },
}

impl View for MessageBody {
    type V = BodyView;

    open spec fn view(&self) -> BodyView {
        match self {
            MessageBody::EnrollInit(m) => BodyView::EnrollInit { challenge: m.challenge@ },
            MessageBody::EnrollRegister(m) => BodyView::EnrollRegister {
                challenge: m.challenge@,
                team_number: m.team_number,
                project_choice: m.project_choice,
                nonce: m.nonce@,
                string_payload: m.string_payload@,
            },
            MessageBody::EnrollSuccess(m) => BodyView::EnrollSuccess {
                reserved: m.reserved,
                team_number: m.team_number,
            },
            MessageBody::EnrollFailure(m) => BodyView::EnrollFailure {
                reserved: m.reserved,
                error_number: m.error_number,
                error_description: m.error_description@,
            },
        }
    }
}

impl View for Message {
    type V = BodyView;

    open spec fn view(&self) -> BodyView {
        self.body@
    }
}

/// The fixed-width fields of a body view have their declared widths.
pub open spec fn wf_body(b: BodyView) -> bool {
    match b {
        BodyView::EnrollInit { challenge } => challenge.len() == 8,
        BodyView::EnrollRegister { challenge, nonce, .. } => challenge.len() == 8
            && nonce.len() == 8,
        BodyView::EnrollSuccess { .. } => true,
        BodyView::EnrollFailure { .. } => true,
    }
}

/// Big-endian byte pair of a 16-bit value.
pub open spec fn be16(x: u16) -> Seq<u8> {
    seq![(x / 256) as u8, (x % 256) as u8]
}

/// Reads a 16-bit value from two big-endian bytes.
pub fn be16_value(hi: u8, lo: u8) -> (r: u16)
    ensures
        be16(r) == seq![hi, lo],
        r == hi * 256 + lo,
{
    let r: u16 = (hi as u16) * 256 + (lo as u16);
    proof {
        assert(be16(r) =~= seq![hi, lo]);
    }
    r
}

/// The wire code of each project choice.
pub open spec fn project_code(p: Project) -> u16 {
    match p {
        Project::Gossip => 2961,
        Project::DHT => 4963,
        Project::RPS => 15882,
        Project::NSE => 7071,
        Project::Onion => 39943,
    }
}

/// The project choice a wire code stands for, if any.
pub open spec fn spec_project_of_code(c: int) -> Option<Project> {
    if c == 2961 {
        Some(Project::Gossip)
    } else if c == 4963 {
        Some(Project::DHT)
    } else if c == 15882 {
        Some(Project::RPS)
    } else if c == 7071 {
        Some(Project::NSE)
    } else if c == 39943 {
        Some(Project::Onion)
    } else {
        None
    }
}

impl Project {
    /// The 16-bit wire code of this project choice.
    pub fn code(&self) -> (r: u16)
        ensures
            r == project_code(*self),
    {
        match self {
            Project::Gossip => 2961,
            Project::DHT => 4963,
            Project::RPS => 15882,
            Project::NSE => 7071,
            Project::Onion => 39943,
        }
    }

    /// The project choice of a wire code; `None` for every unassigned code.
    pub fn from_code(c: u16) -> (r: Option<Project>)
        ensures
            r == spec_project_of_code(c as int),
    {
        if c == 2961 {
            Some(Project::Gossip)
        } else if c == 4963 {
            Some(Project::DHT)
        } else if c == 15882 {
            Some(Project::RPS)
        } else if c == 7071 {
            Some(Project::NSE)
        } else if c == 39943 {
            Some(Project::Onion)
        } else {
            None
        }
    }
}

/// The magic number of each variant.
pub open spec fn spec_magic(b: BodyView) -> u16 {
    match b {
        BodyView::EnrollInit { .. } => MAGIC_ENROLL_INIT,
        BodyView::EnrollRegister { .. } => MAGIC_ENROLL_REGISTER,
        BodyView::EnrollSuccess { .. } => MAGIC_ENROLL_SUCCESS,
        BodyView::EnrollFailure { .. } => MAGIC_ENROLL_FAILURE,
    }
}

/// The variant's fields in declared order, big-endian, with any trailing
/// variable-length field last.
pub open spec fn spec_fields(b: BodyView) -> Seq<u8> {
    match b {
        BodyView::EnrollInit { challenge } => challenge,
        BodyView::EnrollRegister {
            challenge,
            team_number,
            project_choice,
            nonce,
            string_payload,
        } => challenge + be16(team_number) + be16(project_code(project_choice)) + nonce
            + string_payload,
        BodyView::EnrollSuccess { reserved, team_number } => be16(reserved) + be16(team_number),
        BodyView::EnrollFailure { reserved, error_number, error_description } => be16(reserved)
            + be16(error_number) + error_description,
    }
}

/// The length of the whole frame: 2 bytes of length prefix, 2 of magic
/// number, then the fields.
pub open spec fn spec_frame_len(b: BodyView) -> int {
    4 + spec_fields(b).len() as int
}

/// The encoded frame of a message: its own length, the magic number, the
/// fields. Meaningful when the frame length fits the 16-bit prefix.
pub open spec fn spec_encoded(b: BodyView) -> Seq<u8>
    recommends
        spec_frame_len(b) <= 0xFFFF,
{
    be16(spec_frame_len(b) as u16) + be16(spec_magic(b)) + spec_fields(b)
}

/// What decoding a frame yields: the variant selected by the magic number,
/// its fixed fields read in declared order, and any trailing field taking
/// every byte left in the frame. The length prefix is carried in the frame
/// but its value does not take part in decoding.
pub open spec fn spec_decode(frame: Seq<u8>) -> Result<BodyView, EnrollError> {
    if frame.len() < 4 {
        Err(EnrollError::Truncated)
    } else {
        let magic = (frame[2] as int) * 256 + (frame[3] as int);
        if magic == MAGIC_ENROLL_INIT {
            if frame.len() < 12 {
                Err(EnrollError::Truncated)
            } else {
                Ok(BodyView::EnrollInit { challenge: frame.subrange(4, 12) })
            }
        } else if magic == MAGIC_ENROLL_REGISTER {
            if frame.len() < 24 {
                Err(EnrollError::Truncated)
            } else {
                let code = (frame[14] as int) * 256 + (frame[15] as int);
                match spec_project_of_code(code) {
                    Some(project_choice) => Ok(BodyView::EnrollRegister {
                        challenge: frame.subrange(4, 12),
                        team_number: ((frame[12] as int) * 256 + (frame[13] as int)) as u16,
                        project_choice,
                        nonce: frame.subrange(16, 24),
                        string_payload: frame.skip(24),
                    }),
                    None => Err(EnrollError::InvalidMagic),
                }
            }
        } else if magic == MAGIC_ENROLL_SUCCESS {
            if frame.len() < 8 {
                Err(EnrollError::Truncated)
            } else {
                Ok(BodyView::EnrollSuccess {
                    reserved: ((frame[4] as int) * 256 + (frame[5] as int)) as u16,
                    team_number: ((frame[6] as int) * 256 + (frame[7] as int)) as u16,
                })
            }
        } else if magic == MAGIC_ENROLL_FAILURE {
            if frame.len() < 8 {
                Err(EnrollError::Truncated)
            } else {
                Ok(BodyView::EnrollFailure {
                    reserved: ((frame[4] as int) * 256 + (frame[5] as int)) as u16,
                    error_number: ((frame[6] as int) * 256 + (frame[7] as int)) as u16,
                    error_description: frame.skip(8),
                })
            }
        } else {
            Err(EnrollError::InvalidMagic)
        }
    }
}

impl MessageBody {
    /// The body size written into the length prefix's computation: the magic
    /// number's 2 bytes plus the fields. Rejects a body whose size cannot be
    /// carried by a 16-bit field.
    pub fn size(&self) -> (r: Result<u16, EnrollError>)
        ensures
            match r {
                Ok(s) => spec_fields(self@).len() + 2 <= 0xFFFF && s == spec_fields(self@).len()
                    + 2,
                Err(e) => e == EnrollError::EncodingOverflow && spec_fields(self@).len() + 2
                    > 0xFFFF,
            },
    {
        match self {
            MessageBody::EnrollInit(_) => Ok(10),
            MessageBody::EnrollRegister(register) => {
                if register.string_payload.len() <= 0xFFFF - 22 {
                    Ok(22 + register.string_payload.len() as u16)
                } else {
                    Err(EnrollError::EncodingOverflow)
                }
            },
            MessageBody::EnrollSuccess(_) => Ok(6),
            MessageBody::EnrollFailure(failure) => {
                if failure.error_description.len() <= 0xFFFF - 6 {
                    Ok(6 + failure.error_description.len() as u16)
                } else {
                    Err(EnrollError::EncodingOverflow)
                }
            },
        }
    }

    /// The magic number of this body's variant.
    pub fn magic(&self) -> (r: u16)
        ensures
            r == spec_magic(self@),
    {
        match self {
            MessageBody::EnrollInit(_) => MAGIC_ENROLL_INIT,
            MessageBody::EnrollRegister(_) => MAGIC_ENROLL_REGISTER,
            MessageBody::EnrollSuccess(_) => MAGIC_ENROLL_SUCCESS,
            MessageBody::EnrollFailure(_) => MAGIC_ENROLL_FAILURE,
        }
    }
}

/// Appends the big-endian byte pair of `x`.
fn push_be16(out: &mut Vec<u8>, x: u16)
    ensures
        final(out)@ == old(out)@ + be16(x),
{
    out.push((x / 256) as u8);
    out.push((x % 256) as u8);
    proof {
        assert(out@ =~= old(out)@ + be16(x));
    }
}

/// Appends the eight bytes of a fixed-width field.
fn push_bytes8(out: &mut Vec<u8>, b: &[u8; 8])
    ensures
        final(out)@ == old(out)@ + b@,
{
    out.push(b[0]);
    out.push(b[1]);
    out.push(b[2]);
    out.push(b[3]);
    out.push(b[4]);
    out.push(b[5]);
    out.push(b[6]);
    out.push(b[7]);
    proof {
        assert(out@ =~= old(out)@ + b@);
    }
}

/// Appends every byte of `b`.
fn push_bytes(out: &mut Vec<u8>, b: &Vec<u8>)
    ensures
        final(out)@ == old(out)@ + b@,
{
    let ghost pre = out@;
    let mut i: usize = 0;
    while i < b.len()
        invariant
            i <= b@.len(),
            out@ == pre + b@.subrange(0, i as int),
        decreases b@.len() - i,
    {
        out.push(b[i]);
        i += 1;
        proof {
            assert(out@ =~= pre + b@.subrange(0, i as int));
        }
    }
    proof {
        assert(out@ =~= pre + b@);
    }
}

/// Encodes a message into one frame: the computed total length as a
/// big-endian 16-bit prefix, the magic number, then the fields in order.
/// Fails exactly when the frame would not fit the 16-bit length field.
pub fn encode(m: &Message) -> (r: Result<Vec<u8>, EnrollError>)
    ensures
        match r {
            Ok(v) => spec_frame_len(m@) <= 0xFFFF && v@ == spec_encoded(m@) && v@.len()
                == spec_frame_len(m@) && (v@[0] as int) * 256 + (v@[1] as int) == v@.len(),
            Err(e) => e == EnrollError::EncodingOverflow && spec_frame_len(m@) > 0xFFFF,
        },
{
    let size = match m.body.size() {
        Ok(s) => s,
        Err(e) => {
            return Err(e);
        },
    };
    if size > 0xFFFF - 2 {
        return Err(EnrollError::EncodingOverflow);
    }
    let total: u16 = size + 2;
    let mut out: Vec<u8> = Vec::new();
    push_be16(&mut out, total);
    push_be16(&mut out, m.body.magic());
    match &m.body {
        MessageBody::EnrollInit(b) => {
            push_bytes8(&mut out, &b.challenge);
        },
        MessageBody::EnrollRegister(b) => {
            push_bytes8(&mut out, &b.challenge);
            push_be16(&mut out, b.team_number);
            push_be16(&mut out, b.project_choice.code());
            push_bytes8(&mut out, &b.nonce);
            push_bytes(&mut out, &b.string_payload);
        },
        MessageBody::EnrollSuccess(b) => {
            push_be16(&mut out, b.reserved);
            push_be16(&mut out, b.team_number);
        },
        MessageBody::EnrollFailure(b) => {
            push_be16(&mut out, b.reserved);
            push_be16(&mut out, b.error_number);
            push_bytes(&mut out, &b.error_description);
        },
    }
    proof {
        assert(out@ =~= spec_encoded(m@));
    }
    Ok(out)
}

/// Round trip: decoding the encoding of any well-formed body whose frame
/// fits the 16-bit length prefix yields that body again.
pub proof fn lemma_round_trip(b: BodyView)
    requires
        wf_body(b),
        spec_frame_len(b) <= 0xFFFF,
    ensures
        spec_decode(spec_encoded(b)) == Ok::<BodyView, EnrollError>(b),
{
    let f = spec_encoded(b);
    let magic = spec_magic(b);
    assert(f[2] == (magic / 256) as u8);
    assert(f[3] == (magic % 256) as u8);
    assert((f[2] as int) * 256 + (f[3] as int) == magic);
    match b {
        BodyView::EnrollInit { challenge } => {
            assert(f.subrange(4, 12) =~= challenge);
        },
        BodyView::EnrollRegister {
            challenge,
            team_number,
            project_choice,
            nonce,
            string_payload,
        } => {
            let fields = spec_fields(b);
            assert(f.subrange(4, 12) =~= challenge);
            assert(f[12] == (team_number / 256) as u8);
            assert(f[13] == (team_number % 256) as u8);
            assert((f[12] as int) * 256 + (f[13] as int) == team_number);
            let code = project_code(project_choice);
            assert(f[14] == (code / 256) as u8);
            assert(f[15] == (code % 256) as u8);
            assert((f[14] as int) * 256 + (f[15] as int) == code);
            assert(spec_project_of_code(code as int) == Some(project_choice));
            assert(f.subrange(16, 24) =~= nonce);
            assert(f.skip(24) =~= string_payload);
        },
        BodyView::EnrollSuccess { reserved, team_number } => {
            assert((f[4] as int) * 256 + (f[5] as int) == reserved);
            assert((f[6] as int) * 256 + (f[7] as int) == team_number);
        },
        BodyView::EnrollFailure { reserved, error_number, error_description } => {
            assert((f[4] as int) * 256 + (f[5] as int) == reserved);
            assert((f[6] as int) * 256 + (f[7] as int) == error_number);
            assert(f.skip(8) =~= error_description);
        },
    }
}

/// Reads eight bytes starting at `off`.
fn read8(frame: &Vec<u8>, off: usize) -> (r: [u8; 8])
    requires
        off + 8 <= frame@.len(),
    ensures
        r@ == frame@.subrange(off as int, off as int + 8),
{
    let n: usize = frame.len();
    proof {
        assert(off + 8 <= n);
    }
    let mut r: [u8; 8] = [0; 8];
    r[0] = frame[off];
    r[1] = frame[off + 1];
    r[2] = frame[off + 2];
    r[3] = frame[off + 3];
    r[4] = frame[off + 4];
    r[5] = frame[off + 5];
    r[6] = frame[off + 6];
    r[7] = frame[off + 7];
    proof {
        assert(r@ =~= frame@.subrange(off as int, off as int + 8));
    }
    r
}

/// Copies every byte of the frame from `off` to its end.
pub(crate) fn read_tail(frame: &Vec<u8>, off: usize) -> (r: Vec<u8>)
    requires
        off <= frame@.len(),
    ensures
        r@ == frame@.skip(off as int),
{
    let mut r: Vec<u8> = Vec::new();
    let mut i: usize = off;
    while i < frame.len()
        invariant
            off <= i <= frame@.len(),
            r@ == frame@.subrange(off as int, i as int),
        decreases frame@.len() - i,
    {
        r.push(frame[i]);
        i += 1;
        proof {
            assert(r@ =~= frame@.subrange(off as int, i as int));
        }
    }
    proof {
        assert(r@ =~= frame@.skip(off as int));
    }
    r
}

/// Decodes one frame, length prefix included verbatim: the magic number at
/// offset 2 selects the variant, fixed fields follow in declared order, and a
/// trailing variable-length field takes every remaining byte. Fails with
/// `Truncated` when fewer bytes remain than a fixed field requires, and with
/// `InvalidMagic` on a magic number or project code matching no variant.
pub fn decode(frame: &Vec<u8>) -> (r: Result<Message, EnrollError>)
    ensures
        match r {
            Ok(m) => spec_decode(frame@) == Ok::<BodyView, EnrollError>(m@),
            Err(e) => spec_decode(frame@) == Err::<BodyView, EnrollError>(e),
        },
{
    if frame.len() < 4 {
        return Err(EnrollError::Truncated);
    }
    let magic = be16_value(frame[2], frame[3]);
    if magic == MAGIC_ENROLL_INIT {
        if frame.len() < 12 {
            return Err(EnrollError::Truncated);
        }
        let challenge = read8(frame, 4);
        Ok(Message { body: MessageBody::EnrollInit(EnrollInit { challenge }) })
    } else if magic == MAGIC_ENROLL_REGISTER {
        if frame.len() < 24 {
            return Err(EnrollError::Truncated);
        }
        let project_choice = match Project::from_code(be16_value(frame[14], frame[15])) {
            Some(p) => p,
            None => {
                return Err(EnrollError::InvalidMagic);
            },
        };
        let challenge = read8(frame, 4);
        let team_number = be16_value(frame[12], frame[13]);
        let nonce = read8(frame, 16);
        let string_payload = read_tail(frame, 24);
        Ok(Message {
            body: MessageBody::EnrollRegister(EnrollRegister {
                challenge,
                team_number,
                project_choice,
                nonce,
                string_payload,
            }),
        })
    } else if magic == MAGIC_ENROLL_SUCCESS {
        if frame.len() < 8 {
            return Err(EnrollError::Truncated);
        }
        Ok(Message {
            body: MessageBody::EnrollSuccess(EnrollSuccess {
                reserved: be16_value(frame[4], frame[5]),
                team_number: be16_value(frame[6], frame[7]),
            }),
        })
    } else if magic == MAGIC_ENROLL_FAILURE {
        if frame.len() < 8 {
            return Err(EnrollError::Truncated);
        }
        Ok(Message {
            body: MessageBody::EnrollFailure(EnrollFailure {
                reserved: be16_value(frame[4], frame[5]),
                error_number: be16_value(frame[6], frame[7]),
                error_description: read_tail(frame, 8),
            }),
        })
    } else {
        Err(EnrollError::InvalidMagic)
    }
}

} // verus!
