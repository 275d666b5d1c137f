//! Protocol messages: the 24-byte header, the Version payload, and the
//! closed set of message variants with their framing.

use vstd::prelude::*;
use vstd::utf8::encode_utf8;
use rand::Rng;
use crate::bytes::{
    DecodeError, get_u32_le, get_u64_le, get_u8, le_u32, le_u64, lemma_split, lemma_u32_window,
    lemma_u64_window,
    put_u32_le, put_u64_le, put_u8, u32_at_le, u64_at_le,
};
use crate::compact_size::{
    lemma_string_window, parse_string, read_string, string_bytes, write_string,
};
use crate::checksum::{checksum, checksum_of};
use crate::bytes::{copy_range, lemma_le_u64, put_bytes};
use crate::netaddr::{
    NetAddr, NetAddrView, SocketAddress, decode_addr, is_v6_mapped, lemma_addr_window,
    netaddr_bytes, parse_netaddr, write_addr,
};

verus! {

/// The protocol version this harness announces.
pub const PROTOCOL_VERSION: u32 = 170_013;

/// A message header as it stands in the first 24 bytes of a frame.
#[derive(Debug, Clone, Copy, PartialEq, Eq)]
pub struct MessageHeader {
    pub magic: [u8; 4],
    pub command: [u8; 12],
    pub body_length: u32,
    pub checksum: u32,
}

impl MessageHeader {
    /// Splits the 24 header bytes into their fields; the length and the
    /// checksum are read little-endian.
    pub fn from(bytes: [u8; 24]) -> (r: Self)
        ensures
            r.magic@ == bytes@.subrange(0, 4),
            r.command@ == bytes@.subrange(4, 16),
            r.body_length == u32_at_le(bytes@, 16),
            r.checksum == u32_at_le(bytes@, 20),
    {
        let magic: [u8; 4] = [bytes[0], bytes[1], bytes[2], bytes[3]];
        let mut command: [u8; 12] = [0u8; 12];
        let mut i: usize = 0;
        while i < 12
            invariant
                i <= 12,
                command@.len() == 12,
                forall|j: int| 0 <= j < i ==> command@[j] == bytes@[4 + j],
            decreases 12 - i,
        {
            command[i] = bytes[4 + i];
            i = i + 1;
        }
        assert(magic@ =~= bytes@.subrange(0, 4));
        assert(command@ =~= bytes@.subrange(4, 16));
        let body_length = (bytes[16] as u32) | ((bytes[17] as u32) << 8u32) | ((bytes[18] as u32)
            << 16u32) | ((bytes[19] as u32) << 24u32);
        let checksum = (bytes[20] as u32) | ((bytes[21] as u32) << 8u32) | ((bytes[22] as u32)
            << 16u32) | ((bytes[23] as u32) << 24u32);
        MessageHeader { magic, command, body_length, checksum }
    }
}

/// The Version payload, which opens the handshake.
#[derive(Debug, Clone, PartialEq, Eq)]
pub struct Version {
    pub version: u32,
    pub services: u64,
    /// Unix time in seconds.
    pub timestamp: i64,
    pub addr_recv: NetAddr,
    pub addr_from: NetAddr,
    pub nonce: u64,
    pub user_agent: String,
    pub start_height: u32,
    pub relay: bool,
}

pub struct VersionView {
    pub version: u32,
    pub services: u64,
    pub timestamp: i64,
    pub addr_recv: NetAddrView,
    pub addr_from: NetAddrView,
    pub nonce: u64,
    pub user_agent: Seq<char>,
    pub start_height: u32,
    pub relay: bool,
}

impl View for Version {
    type V = VersionView;

    open spec fn view(&self) -> VersionView {
        VersionView {
            version: self.version,
            services: self.services,
            timestamp: self.timestamp,
            addr_recv: self.addr_recv@,
            addr_from: self.addr_from@,
            nonce: self.nonce,
            user_agent: self.user_agent@,
            start_height: self.start_height,
            relay: self.relay,
        }
    }
}

/// The Version body on the wire.
pub open spec fn version_body(v: VersionView) -> Seq<u8> {
    le_u32(v.version) + le_u64(v.services) + le_u64(v.timestamp as u64) + netaddr_bytes(
        v.addr_recv,
    ) + netaddr_bytes(v.addr_from) + le_u64(v.nonce) + string_bytes(v.user_agent) + le_u32(
        v.start_height,
    ) + seq![if v.relay { 1u8 } else { 0u8 }]
}

/// Reads a Version body at `pos`: the payload and the position after it.
pub open spec fn parse_version(s: Seq<u8>, pos: int) -> Result<(VersionView, int), DecodeError> {
    if pos < 0 || pos + 20 > s.len() {
        Err(DecodeError::Truncated)
    } else {
        match parse_netaddr(s, pos + 20) {
            Err(e) => Err(e),
            Ok((recv, after_recv)) => match parse_netaddr(s, after_recv) {
                Err(e) => Err(e),
                Ok((from, after_from)) => if after_from + 8 > s.len() {
                    Err(DecodeError::Truncated)
                } else {
                    match parse_string(s, after_from + 8) {
                        Err(e) => Err(e),
                        Ok((ua, after_agent)) => if after_agent + 5 > s.len() {
                            Err(DecodeError::Truncated)
                        } else {
                            Ok(
                                (
                                    VersionView {
                                        version: u32_at_le(s, pos),
                                        services: u64_at_le(s, pos + 4),
                                        timestamp: u64_at_le(s, pos + 12) as i64,
                                        addr_recv: recv,
                                        addr_from: from,
                                        nonce: u64_at_le(s, after_from),
                                        user_agent: ua,
                                        start_height: u32_at_le(s, after_agent),
                                        relay: s[after_agent + 4] != 0,
                                    },
                                    after_agent + 5,
                                ),
                            )
                        },
                    }
                },
            },
        }
    }
}

/// Relies on chrono's `Utc::now` and `DateTime::timestamp`: the current
/// Unix time in seconds.
#[verifier::external_body]
fn unix_now() -> (r: i64) {
    chrono::Utc::now().timestamp()
}

/// Relies on rand's `thread_rng` and `Rng::gen`: a random `u64`.
#[verifier::external_body]
fn random_nonce() -> (r: u64) {
    rand::thread_rng().gen()
}

impl Version {
    /// Our own Version: this harness's protocol version, one service bit on
    /// each side, the current time, a random nonce, an empty user agent, a
    /// start height of zero and relay off.
    pub fn new(addr_recv: SocketAddress, addr_from: SocketAddress) -> (r: Self)
        ensures
            r.version == PROTOCOL_VERSION,
            r.services == 1,
            r.addr_recv == (NetAddr { services: 1, addr: addr_recv }),
            r.addr_from == (NetAddr { services: 1, addr: addr_from }),
            r.user_agent@ == Seq::<char>::empty(),
            r.start_height == 0,
            !r.relay,
    {
        Version {
            version: PROTOCOL_VERSION,
            services: 1,
            timestamp: unix_now(),
            addr_recv: NetAddr { services: 1, addr: addr_recv },
            addr_from: NetAddr { services: 1, addr: addr_from },
            nonce: random_nonce(),
            user_agent: String::new(),
            start_height: 0,
            relay: false,
        }
    }

    /// Appends the Version body.
    pub fn encode_body(&self, buf: &mut Vec<u8>)
        requires
            encode_utf8(self.user_agent@).len() + 9 <= usize::MAX,
        ensures
            final(buf)@ == old(buf)@ + version_body(self@),
    {
        put_u32_le(buf, self.version);
        put_u64_le(buf, self.services);
        put_u64_le(buf, self.timestamp as u64);
        write_addr(buf, &self.addr_recv);
        write_addr(buf, &self.addr_from);
        put_u64_le(buf, self.nonce);
        write_string(buf, self.user_agent.as_str());
        put_u32_le(buf, self.start_height);
        put_u8(buf, if self.relay { 1 } else { 0 });
        assert(buf@ =~= old(buf)@ + version_body(self@));
    }

    /// The frame that carries this Version.
    pub fn encode(&self) -> (r: Vec<u8>)
        requires
            encodable(MessageView::Version(self@)),
        ensures
            r@ == message_frame(MessageView::Version(self@)),
    {
        let mut body: Vec<u8> = Vec::new();
        self.encode_body(&mut body);
        assert(body@ =~= version_body(self@));
        let sum = checksum(body.as_slice());
        frame(&version_command(), body.as_slice(), sum)
    }

    /// Reads a Version body at `pos`.
    pub fn decode(s: &[u8], pos: usize) -> (r: Result<(Version, usize), DecodeError>)
        ensures
            match r {
                Ok((v, p)) => parse_version(s@, pos as int) == Ok::<(VersionView, int), DecodeError>(
                    (v@, p as int),
                ),
                Err(e) => parse_version(s@, pos as int) == Err::<(VersionView, int), DecodeError>(e),
            },
    {
        let len = s.len();
        if pos > len || len - pos < 20 {
            return Err(DecodeError::Truncated);
        }
        let version = get_u32_le(s, pos)?;
        let services = get_u64_le(s, pos + 4)?;
        let timestamp = get_u64_le(s, pos + 12)? as i64;
        let (addr_recv, after_recv) = decode_addr(s, pos + 20)?;
        let (addr_from, after_from) = decode_addr(s, after_recv)?;
        if after_from > len || len - after_from < 8 {
            return Err(DecodeError::Truncated);
        }
        let nonce = get_u64_le(s, after_from)?;
        let (user_agent, after_agent) = read_string(s, after_from + 8)?;
        if after_agent > len || len - after_agent < 5 {
            return Err(DecodeError::Truncated);
        }
        let start_height = get_u32_le(s, after_agent)?;
        let relay = get_u8(s, after_agent + 4)? != 0;
        Ok(
            (
                Version {
                    version,
                    services,
                    timestamp,
                    addr_recv,
                    addr_from,
                    nonce,
                    user_agent,
                    start_height,
                    relay,
                },
                after_agent + 5,
            ),
        )
    }
}

/// The Version round trip, for a body that fills the window of `s` at `p`.
#[verifier::spinoff_prover]
#[verifier::rlimit(60)]
pub proof fn lemma_version_window(s: Seq<u8>, p: int, x: Version)
    requires
        !is_v6_mapped(x.addr_recv@.ip),
        !is_v6_mapped(x.addr_from@.ip),
        encode_utf8(x.user_agent@).len() <= u64::MAX,
        0 <= p,
        p + version_body(x@).len() <= s.len(),
        s.subrange(p, p + version_body(x@).len()) == version_body(x@),
    ensures
        parse_version(s, p) == Ok::<(VersionView, int), DecodeError>(
            (x@, p + version_body(x@).len()),
        ),
{
    let v = x@;
    let a = le_u32(v.version);
    let b = le_u64(v.services);
    let c = le_u64(v.timestamp as u64);
    let d = netaddr_bytes(v.addr_recv);
    let e = netaddr_bytes(v.addr_from);
    let f = le_u64(v.nonce);
    let g = string_bytes(v.user_agent);
    let h = le_u32(v.start_height);
    let i = seq![if v.relay { 1u8 } else { 0u8 }];
    let r8 = h + i;
    let r7 = g + r8;
    let r6 = f + r7;
    let r5 = e + r6;
    let r4 = d + r5;
    let r3 = c + r4;
    let r2 = b + r3;
    let r1 = a + r2;
    assert(version_body(v) =~= r1);
    lemma_split(s, p, a, r2);
    lemma_split(s, p + 4, b, r3);
    lemma_split(s, p + 12, c, r4);
    lemma_split(s, p + 20, d, r5);
    lemma_split(s, p + 46, e, r6);
    lemma_split(s, p + 72, f, r7);
    lemma_split(s, p + 80, g, r8);
    let after_agent = p + 80 + g.len();
    lemma_split(s, after_agent, h, i);
    lemma_u32_window(s, p, v.version);
    lemma_u64_window(s, p + 4, v.services);
    lemma_u64_window(s, p + 12, v.timestamp as u64);
    let t = v.timestamp;
    assert((t as u64) as i64 == t) by (bit_vector);
    lemma_addr_window(s, p + 20, x.addr_recv);
    lemma_addr_window(s, p + 46, x.addr_from);
    lemma_u64_window(s, p + 72, v.nonce);
    lemma_string_window(s, p + 80, v.user_agent);
    lemma_u32_window(s, after_agent, v.start_height);
    assert(s[after_agent + 4] == s.subrange(after_agent + 4, after_agent + 5)[0]);
}

/// The closed set of messages this codec speaks, keyed on the wire by
/// their command name.
#[derive(Debug, Clone, PartialEq, Eq)]
pub enum Message {
    Version(Version),
    Verack,
    Ping(u64),
    Pong(u64),
}

pub enum MessageView {
    Version(VersionView),
    Verack,
    Ping(u64),
    Pong(u64),
}

impl View for Message {
    type V = MessageView;

    open spec fn view(&self) -> MessageView {
        match self {
            Message::Version(v) => MessageView::Version(v@),
            Message::Verack => MessageView::Verack,
            Message::Ping(n) => MessageView::Ping(*n),
            Message::Pong(n) => MessageView::Pong(*n),
        }
    }
}

/// The four bytes that open every frame on this network.
pub open spec fn magic() -> Seq<u8> {
    seq![0xfau8, 0x1a, 0xf9, 0xbf]
}

/// "version", NUL-padded to twelve bytes.
pub open spec fn command_version() -> Seq<u8> {
    seq![0x76u8, 0x65, 0x72, 0x73, 0x69, 0x6f, 0x6e, 0, 0, 0, 0, 0]
}

/// "verack", NUL-padded to twelve bytes.
pub open spec fn command_verack() -> Seq<u8> {
    seq![0x76u8, 0x65, 0x72, 0x61, 0x63, 0x6b, 0, 0, 0, 0, 0, 0]
}

/// "ping", NUL-padded to twelve bytes.
pub open spec fn command_ping() -> Seq<u8> {
    seq![0x70u8, 0x69, 0x6e, 0x67, 0, 0, 0, 0, 0, 0, 0, 0]
}

/// "pong", NUL-padded to twelve bytes.
pub open spec fn command_pong() -> Seq<u8> {
    seq![0x70u8, 0x6f, 0x6e, 0x67, 0, 0, 0, 0, 0, 0, 0, 0]
}

pub open spec fn command_of(m: MessageView) -> Seq<u8> {
    match m {
        MessageView::Version(_) => command_version(),
        MessageView::Verack => command_verack(),
        MessageView::Ping(_) => command_ping(),
        MessageView::Pong(_) => command_pong(),
    }
}

pub open spec fn body_of(m: MessageView) -> Seq<u8> {
    match m {
        MessageView::Version(v) => version_body(v),
        MessageView::Verack => Seq::empty(),
        MessageView::Ping(n) => le_u64(n),
        MessageView::Pong(n) => le_u64(n),
    }
}

/// Whether `m` can be framed: its body length must fit the header's field.
pub open spec fn encodable(m: MessageView) -> bool {
    body_of(m).len() <= u32::MAX
}

/// A frame: magic, command, body length, checksum, then the body.
pub open spec fn frame_bytes(command: Seq<u8>, body: Seq<u8>, sum: Seq<u8>) -> Seq<u8> {
    magic() + command + le_u32(body.len() as u32) + sum + body
}

/// The frame that carries `m`.
pub open spec fn message_frame(m: MessageView) -> Seq<u8> {
    frame_bytes(command_of(m), body_of(m), checksum_of(body_of(m)))
}

/// Reads a body by the command that the header names.
pub open spec fn parse_body(command: Seq<u8>, body: Seq<u8>) -> Result<MessageView, DecodeError> {
    if command == command_version() {
        match parse_version(body, 0) {
            Err(e) => Err(e),
            Ok((v, p)) => if p == body.len() {
                Ok(MessageView::Version(v))
            } else {
                Err(DecodeError::LengthMismatch)
            },
        }
    } else if command == command_verack() {
        if body.len() == 0 {
            Ok(MessageView::Verack)
        } else {
            Err(DecodeError::LengthMismatch)
        }
    } else if command == command_ping() || command == command_pong() {
        if body.len() != 8 {
            Err(DecodeError::LengthMismatch)
        } else if command == command_ping() {
            Ok(MessageView::Ping(u64_at_le(body, 0)))
        } else {
            Ok(MessageView::Pong(u64_at_le(body, 0)))
        }
    } else {
        Err(DecodeError::UnknownCommand)
    }
}

/// Reads a body whose checksum, as computed, is `sum`, under a header that
/// declares `declared`: a mismatch is reported before anything else.
pub open spec fn parse_checked(command: Seq<u8>, declared: u32, body: Seq<u8>, sum: Seq<u8>) -> Result<
    MessageView,
    DecodeError,
> {
    if u32_at_le(sum, 0) != declared {
        Err(DecodeError::ChecksumMismatch)
    } else {
        parse_body(command, body)
    }
}

/// Reads the frame at the start of `s`: the message and the frame's length.
pub open spec fn parse_message(s: Seq<u8>) -> Result<(MessageView, int), DecodeError> {
    if s.len() < 24 {
        Err(DecodeError::Truncated)
    } else if s.subrange(0, 4) != magic() {
        Err(DecodeError::BadMagic)
    } else if 24 + u32_at_le(s, 16) > s.len() {
        Err(DecodeError::Truncated)
    } else {
        let end = 24 + u32_at_le(s, 16);
        let body = s.subrange(24, end);
        match parse_checked(s.subrange(4, 16), u32_at_le(s, 20), body, checksum_of(body)) {
            Err(e) => Err(e),
            Ok(m) => Ok((m, end)),
        }
    }
}

fn version_command() -> (r: [u8; 12])
    ensures
        r@ == command_version(),
{
    let r: [u8; 12] = [0x76, 0x65, 0x72, 0x73, 0x69, 0x6f, 0x6e, 0, 0, 0, 0, 0];
    assert(r@ =~= command_version());
    r
}

fn verack_command() -> (r: [u8; 12])
    ensures
        r@ == command_verack(),
{
    let r: [u8; 12] = [0x76, 0x65, 0x72, 0x61, 0x63, 0x6b, 0, 0, 0, 0, 0, 0];
    assert(r@ =~= command_verack());
    r
}

fn ping_command() -> (r: [u8; 12])
    ensures
        r@ == command_ping(),
{
    let r: [u8; 12] = [0x70, 0x69, 0x6e, 0x67, 0, 0, 0, 0, 0, 0, 0, 0];
    assert(r@ =~= command_ping());
    r
}

fn pong_command() -> (r: [u8; 12])
    ensures
        r@ == command_pong(),
{
    let r: [u8; 12] = [0x70, 0x6f, 0x6e, 0x67, 0, 0, 0, 0, 0, 0, 0, 0];
    assert(r@ =~= command_pong());
    r
}

/// Whether two byte strings are equal.
fn same_bytes(a: &[u8], b: &[u8]) -> (r: bool)
    ensures
        r == (a@ == b@),
{
    if a.len() != b.len() {
        return false;
    }
    let mut i: usize = 0;
    while i < a.len()
        invariant
            a@.len() == b@.len(),
            i <= a@.len(),
            forall|j: int| 0 <= j < i ==> a@[j] == b@[j],
        decreases a@.len() - i,
    {
        if a[i] != b[i] {
            return false;
        }
        i = i + 1;
    }
    assert(a@ =~= b@);
    true
}

impl Message {
    /// The command name that the header carries for this message.
    pub fn command(&self) -> (r: [u8; 12])
        ensures
            r@ == command_of(self@),
    {
        match self {
            Message::Version(_) => version_command(),
            Message::Verack => verack_command(),
            Message::Ping(_) => ping_command(),
            Message::Pong(_) => pong_command(),
        }
    }

    /// The message body.
    pub fn encode_body(&self) -> (r: Vec<u8>)
        requires
            encodable(self@),
        ensures
            r@ == body_of(self@),
    {
        let mut buf: Vec<u8> = Vec::new();
        match self {
            Message::Version(v) => {
                v.encode_body(&mut buf);
            },
            Message::Verack => {},
            Message::Ping(n) => {
                put_u64_le(&mut buf, *n);
            },
            Message::Pong(n) => {
                put_u64_le(&mut buf, *n);
            },
        }
        assert(buf@ =~= body_of(self@));
        buf
    }

    /// The frame that carries this message: the header, whose length and
    /// checksum are computed from the body, then the body.
    pub fn encode(&self) -> (r: Vec<u8>)
        requires
            encodable(self@),
        ensures
            r@ == message_frame(self@),
    {
        let body = self.encode_body();
        let sum = checksum(body.as_slice());
        frame(&self.command(), body.as_slice(), sum)
    }

    /// Reads a body under the command that the header names.
    pub fn decode_payload(command: &[u8; 12], body: &[u8]) -> (r: Result<Message, DecodeError>)
        ensures
            match r {
                Ok(m) => parse_body(command@, body@) == Ok::<MessageView, DecodeError>(m@),
                Err(e) => parse_body(command@, body@) == Err::<MessageView, DecodeError>(e),
            },
    {
        if same_bytes(command.as_slice(), version_command().as_slice()) {
            let (v, p) = Version::decode(body, 0)?;
            if p == body.len() {
                Ok(Message::Version(v))
            } else {
                Err(DecodeError::LengthMismatch)
            }
        } else if same_bytes(command.as_slice(), verack_command().as_slice()) {
            if body.len() == 0 {
                Ok(Message::Verack)
            } else {
                Err(DecodeError::LengthMismatch)
            }
        } else {
            let ping = same_bytes(command.as_slice(), ping_command().as_slice());
            let pong = same_bytes(command.as_slice(), pong_command().as_slice());
            if !ping && !pong {
                Err(DecodeError::UnknownCommand)
            } else if body.len() != 8 {
                Err(DecodeError::LengthMismatch)
            } else {
                let n = get_u64_le(body, 0)?;
                if ping {
                    Ok(Message::Ping(n))
                } else {
                    Ok(Message::Pong(n))
                }
            }
        }
    }

    /// Reads a body whose checksum, as computed, is `sum`, under `header`.
    pub fn decode_body(header: &MessageHeader, body: &[u8], sum: [u8; 4]) -> (r: Result<
        Message,
        DecodeError,
    >)
        ensures
            match r {
                Ok(m) => parse_checked(header.command@, header.checksum, body@, sum@) == Ok::<
                    MessageView,
                    DecodeError,
                >(m@),
                Err(e) => parse_checked(header.command@, header.checksum, body@, sum@) == Err::<
                    MessageView,
                    DecodeError,
                >(e),
            },
    {
        let computed = (sum[0] as u32) | ((sum[1] as u32) << 8u32) | ((sum[2] as u32) << 16u32) | ((
        sum[3] as u32) << 24u32);
        if computed != header.checksum {
            return Err(DecodeError::ChecksumMismatch);
        }
        Message::decode_payload(&header.command, body)
    }

    /// Reads the frame at the start of `s`: the message and the number of
    /// bytes the frame took.
    pub fn decode(s: &[u8]) -> (r: Result<(Message, usize), DecodeError>)
        ensures
            match r {
                Ok((m, n)) => parse_message(s@) == Ok::<(MessageView, int), DecodeError>(
                    (m@, n as int),
                ),
                Err(e) => parse_message(s@) == Err::<(MessageView, int), DecodeError>(e),
            },
    {
        let len = s.len();
        if len < 24 {
            return Err(DecodeError::Truncated);
        }
        let mut raw: [u8; 24] = [0u8; 24];
        let mut i: usize = 0;
        while i < 24
            invariant
                i <= 24,
                24 <= s@.len(),
                raw@.len() == 24,
                forall|j: int| 0 <= j < i ==> raw@[j] == s@[j],
            decreases 24 - i,
        {
            raw[i] = s[i];
            i = i + 1;
        }
        assert(raw@ =~= s@.subrange(0, 24));
        let header = MessageHeader::from(raw);
        assert(header.magic@ =~= s@.subrange(0, 4));
        assert(header.command@ =~= s@.subrange(4, 16));
        assert(header.body_length == u32_at_le(s@, 16));
        assert(header.checksum == u32_at_le(s@, 20));
        if !same_bytes(header.magic.as_slice(), magic_bytes().as_slice()) {
            return Err(DecodeError::BadMagic);
        }
        let n = header.body_length as usize;
        if n > len - 24 {
            return Err(DecodeError::Truncated);
        }
        let body = copy_range(s, 24, 24 + n);
        let sum = checksum(body.as_slice());
        let m = Message::decode_body(&header, body.as_slice(), sum)?;
        Ok((m, 24 + n))
    }
}

fn magic_bytes() -> (r: [u8; 4])
    ensures
        r@ == magic(),
{
    let r: [u8; 4] = [0xfa, 0x1a, 0xf9, 0xbf];
    assert(r@ =~= magic());
    r
}

/// Frames `body` under `command` with the given checksum.
pub fn frame(command: &[u8; 12], body: &[u8], sum: [u8; 4]) -> (r: Vec<u8>)
    requires
        body@.len() <= u32::MAX,
    ensures
        r@ == frame_bytes(command@, body@, sum@),
{
    let mut buf: Vec<u8> = Vec::new();
    put_bytes(&mut buf, magic_bytes().as_slice());
    put_bytes(&mut buf, command.as_slice());
    put_u32_le(&mut buf, body.len() as u32);
    put_bytes(&mut buf, sum.as_slice());
    put_bytes(&mut buf, body);
    assert(buf@ =~= frame_bytes(command@, body@, sum@));
    buf
}

/// Whether the addresses in `m` survive the wire as they are: an IPv6
/// address in the IPv4-mapped form comes back as the IPv4 address it maps.
pub open spec fn addresses_unmapped(m: MessageView) -> bool {
    match m {
        MessageView::Version(v) => !is_v6_mapped(v.addr_recv.ip) && !is_v6_mapped(
            v.addr_from.ip,
        ),
        _ => true,
    }
}

proof fn lemma_commands_distinct()
    ensures
        command_version() != command_verack(),
        command_version() != command_ping(),
        command_version() != command_pong(),
        command_verack() != command_ping(),
        command_verack() != command_pong(),
        command_ping() != command_pong(),
{
    assert(command_version()[3] != command_verack()[3]);
    assert(command_version()[0] != command_ping()[0]);
    assert(command_version()[0] != command_pong()[0]);
    assert(command_verack()[0] != command_ping()[0]);
    assert(command_verack()[0] != command_pong()[0]);
    assert(command_ping()[1] != command_pong()[1]);
}

/// The header fields of a frame read back as they were written.
proof fn lemma_frame_fields(command: Seq<u8>, body: Seq<u8>, sum: Seq<u8>)
    requires
        command.len() == 12,
        sum.len() == 4,
        body.len() <= u32::MAX,
    ensures
        ({
            let f = frame_bytes(command, body, sum);
            &&& f.len() == 24 + body.len()
            &&& f.subrange(0, 4) == magic()
            &&& f.subrange(4, 16) == command
            &&& u32_at_le(f, 16) == body.len()
            &&& u32_at_le(f, 20) == u32_at_le(sum, 0)
            &&& f.subrange(24, 24 + body.len() as int) == body
        }),
{
    let f = frame_bytes(command, body, sum);
    let l = le_u32(body.len() as u32);
    assert(f.subrange(0, 4) =~= magic());
    assert(f.subrange(4, 16) =~= command);
    assert(f.subrange(16, 20) =~= l);
    lemma_u32_window(f, 16, body.len() as u32);
    assert(f.subrange(24, 24 + body.len() as int) =~= body);
}

/// Decoding a frame comes down to decoding its body, checked against the
/// checksum that the header carries.
proof fn lemma_parse_frame(command: Seq<u8>, body: Seq<u8>, sum: Seq<u8>)
    requires
        command.len() == 12,
        sum.len() == 4,
        body.len() <= u32::MAX,
    ensures
        parse_message(frame_bytes(command, body, sum)) == match parse_checked(
            command,
            u32_at_le(sum, 0),
            body,
            checksum_of(body),
        ) {
            Err(e) => Err::<(MessageView, int), DecodeError>(e),
            Ok(m) => Ok::<(MessageView, int), DecodeError>((m, 24 + body.len() as int)),
        },
{
    lemma_frame_fields(command, body, sum);
}

/// Every body decodes, under its own command, to the message it encodes.
proof fn lemma_body_round_trip(m: Message)
    requires
        encodable(m@),
        addresses_unmapped(m@),
    ensures
        parse_body(command_of(m@), body_of(m@)) == Ok::<MessageView, DecodeError>(m@),
{
    let body = body_of(m@);
    lemma_commands_distinct();
    match m {
        Message::Version(v) => {
            assert(body.len() >= encode_utf8(v.user_agent@).len());
            assert(body.subrange(0, body.len() as int) =~= body);
            lemma_version_window(body, 0, v);
        },
        Message::Verack => {},
        Message::Ping(n) => {
            lemma_le_u64(n);
        },
        Message::Pong(n) => {
            lemma_le_u64(n);
        },
    }
}

/// Round trip: the frame of any message decodes to that message, and
/// decoding takes exactly the frame's bytes.
#[verifier::spinoff_prover]
pub proof fn lemma_message_round_trip(m: Message)
    requires
        encodable(m@),
        addresses_unmapped(m@),
    ensures
        parse_message(message_frame(m@)) == Ok::<(MessageView, int), DecodeError>(
            (m@, message_frame(m@).len() as int),
        ),
{
    let command = command_of(m@);
    let body = body_of(m@);
    let sum = checksum_of(body);
    let f = frame_bytes(command, body, sum);
    assert(message_frame(m@) == f);
    lemma_frame_fields(command, body, sum);
    lemma_body_round_trip(m);
    assert(parse_checked(command, u32_at_le(sum, 0), body, sum) == Ok::<MessageView, DecodeError>(
        m@,
    ));
    lemma_parse_frame(command, body, sum);
}

/// Checksum integrity: a frame in which one body byte was changed decodes
/// to a checksum mismatch, whenever the changed body's checksum, read as
/// the header holds it, differs from the original body's.
#[verifier::spinoff_prover]
pub proof fn lemma_corrupted_body(m: Message, i: int, b: u8)
    requires
        encodable(m@),
        0 <= i < body_of(m@).len(),
        u32_at_le(checksum_of(body_of(m@).update(i, b)), 0) != u32_at_le(
            checksum_of(body_of(m@)),
            0,
        ),
    ensures
        parse_message(message_frame(m@).update(24 + i, b)) == Err::<(MessageView, int), DecodeError>(
            DecodeError::ChecksumMismatch,
        ),
{
    let command = command_of(m@);
    let body = body_of(m@);
    assert(message_frame(m@) == frame_bytes(command, body, checksum_of(body)));
    lemma_corrupted_frame(command, body, i, b);
}

proof fn lemma_corrupted_frame(command: Seq<u8>, body: Seq<u8>, i: int, b: u8)
    requires
        command.len() == 12,
        body.len() <= u32::MAX,
        0 <= i < body.len(),
        u32_at_le(checksum_of(body.update(i, b)), 0) != u32_at_le(checksum_of(body), 0),
    ensures
        frame_bytes(command, body, checksum_of(body)).update(24 + i, b) == frame_bytes(
            command,
            body.update(i, b),
            checksum_of(body),
        ),
        parse_message(frame_bytes(command, body.update(i, b), checksum_of(body))) == Err::<
            (MessageView, int),
            DecodeError,
        >(DecodeError::ChecksumMismatch),
{
    let sum = checksum_of(body);
    let changed = body.update(i, b);
    assert(frame_bytes(command, body, sum).update(24 + i, b) =~= frame_bytes(command, changed, sum));
    lemma_parse_frame(command, changed, sum);
}

} // verus!
