//! Incremental parser for the CONNECT request line.
//!
//! The parser consumes the bytes of an inbound connection chunk by chunk,
//! checks that they begin with the exact eight bytes `"CONNECT "`, and then
//! accumulates the target host and port: bytes go to the host until the first
//! colon, to the port after it, and a space ends the scan. Every colon is
//! consumed and flips accumulation to the port, so later colons are dropped
//! rather than stored. The scan state is a pure function of the bytes consumed
//! so far, so the result does not depend on how the stream is chunked across
//! reads.
use vstd::prelude::*;
use vstd::string::StringSliceAdditionalSpecFns;
use vstd::utf8::{encode_utf8, valid_utf8};

verus! {

/// The eight bytes `"CONNECT "` (ASCII 67 79 78 78 69 67 84 32) that every
/// accepted request must begin with, byte for byte.
pub open spec fn connect_prefix() -> Seq<u8> {
    seq![67u8, 79u8, 78u8, 78u8, 69u8, 67u8, 84u8, 32u8]
}

/// The byte that ends the request-line scan.
pub const SPACE_BYTE: u8 = 32;

/// The byte that switches accumulation from the host to the port.
pub const COLON_BYTE: u8 = 58;

/// The mathematical scan state: what the parser knows after consuming some
/// prefix of the inbound byte stream.
///
/// Exactly one of three terminal flags can become true, and each is absorbing:
/// once set, further bytes change nothing.
/// - `rejected`: a byte within the first eight differed from `"CONNECT "`.
/// - `overflow`: host and port together would exceed `limit` bytes.
/// - `done`: a space after the prefix ended the scan.
#[verifier::ext_equal]
pub ghost struct ScanState {
    /// How many bytes of the `"CONNECT "` prefix have matched so far (0..=8).
    pub prefix_matched: nat,
    /// A byte within the first eight differed from the prefix.
    pub rejected: bool,
    /// Host and port together would have exceeded `limit`.
    pub overflow: bool,
    /// A space after the prefix ended the scan.
    pub done: bool,
    /// A colon has been seen: bytes now accumulate into the port.
    pub in_port: bool,
    /// The host bytes accumulated so far.
    pub host: Seq<u8>,
    /// The port bytes accumulated so far.
    pub port: Seq<u8>,
    /// The configured cap on `host.len() + port.len()`.
    pub limit: nat,
}

impl ScanState {
    /// The scan has reached one of its three terminal outcomes.
    pub open spec fn finished(self) -> bool {
        self.rejected || self.overflow || self.done
    }
}

/// The scan state before any byte has been consumed, with the given cap on
/// accumulated target length.
pub open spec fn scan_init(limit: nat) -> ScanState {
    ScanState {
        prefix_matched: 0,
        rejected: false,
        overflow: false,
        done: false,
        in_port: false,
        host: Seq::empty(),
        port: Seq::empty(),
        limit: limit,
    }
}

/// One step of the scan: how a single byte changes the state.
pub open spec fn scan_step(m: ScanState, b: u8) -> ScanState {
    if m.finished() {
        m
    } else if m.prefix_matched < 8 {
        if b == connect_prefix()[m.prefix_matched as int] {
            ScanState { prefix_matched: m.prefix_matched + 1, ..m }
        } else {
            ScanState { rejected: true, ..m }
        }
    } else if b == SPACE_BYTE {
        ScanState { done: true, ..m }
    } else if b == COLON_BYTE {
        ScanState { in_port: true, ..m }
    } else if m.host.len() + m.port.len() >= m.limit {
        ScanState { overflow: true, ..m }
    } else if m.in_port {
        ScanState { port: m.port.push(b), ..m }
    } else {
        ScanState { host: m.host.push(b), ..m }
    }
}

/// The scan state after consuming `bytes`, starting from `m`.
pub open spec fn scan(m: ScanState, bytes: Seq<u8>) -> ScanState
    decreases bytes.len(),
{
    if bytes.len() == 0 {
        m
    } else {
        scan(scan_step(m, bytes[0]), bytes.drop_first())
    }
}

/// Scanning distributes over concatenation: consuming `a + b` in one piece
/// reaches the same state as consuming `a`, then `b`. Hence the parse result
/// depends only on the bytes of the stream, never on how reads chunk them.
pub proof fn lemma_scan_append(m: ScanState, a: Seq<u8>, b: Seq<u8>)
    ensures
        scan(m, a + b) == scan(scan(m, a), b),
    decreases a.len(),
{
    if a.len() == 0 {
        assert(a + b =~= b);
    } else {
        assert((a + b)[0] == a[0]);
        assert((a + b).drop_first() =~= a.drop_first() + b);
        lemma_scan_append(scan_step(m, a[0]), a.drop_first(), b);
    }
}

/// A finished state absorbs every further byte.
pub proof fn lemma_scan_finished(m: ScanState, bytes: Seq<u8>)
    requires
        m.finished(),
    ensures
        scan(m, bytes) == m,
    decreases bytes.len(),
{
    if bytes.len() > 0 {
        lemma_scan_finished(m, bytes.drop_first());
    }
}

/// Consuming one more byte of a stream applies one more step.
pub proof fn lemma_scan_snoc(m: ScanState, bytes: Seq<u8>, i: int)
    requires
        0 <= i < bytes.len(),
    ensures
        scan(m, bytes.take(i + 1)) == scan_step(scan(m, bytes.take(i)), bytes[i]),
    decreases bytes.len(),
{
    lemma_scan_append(m, bytes.take(i), seq![bytes[i]]);
    assert(bytes.take(i + 1) =~= bytes.take(i) + seq![bytes[i]]);
    lemma_scan_one(scan(m, bytes.take(i)), bytes[i]);
}

/// The scan state after a sequence of reads, each delivering one chunk.
pub open spec fn scan_chunks(m: ScanState, chunks: Seq<Seq<u8>>) -> ScanState
    decreases chunks.len(),
{
    if chunks.len() == 0 {
        m
    } else {
        scan_chunks(scan(m, chunks.first()), chunks.drop_first())
    }
}

/// However many reads deliver the stream, and however they cut it — split at
/// every single byte included — the parser lands in the very state it would
/// reach reading the whole stream at once.
pub proof fn lemma_scan_chunks_flatten(m: ScanState, chunks: Seq<Seq<u8>>)
    ensures
        scan_chunks(m, chunks) == scan(m, chunks.flatten()),
    decreases chunks.len(),
{
    if chunks.len() == 0 {
    } else {
        lemma_scan_append(m, chunks.first(), chunks.drop_first().flatten());
        lemma_scan_chunks_flatten(scan(m, chunks.first()), chunks.drop_first());
    }
}

/// If a stream never completes the scan, neither does any prefix of it: a
/// read boundary cannot conjure a completion — and so a target dial — that
/// the whole stream does not have.
pub proof fn lemma_prefix_not_done(m: ScanState, a: Seq<u8>, b: Seq<u8>)
    requires
        !scan(m, a + b).done,
    ensures
        !scan(m, a).done,
{
    lemma_scan_append(m, a, b);
    if scan(m, a).done {
        lemma_scan_finished(scan(m, a), b);
    }
}

/// A single byte applies a single step.
pub proof fn lemma_scan_one(m: ScanState, b: u8)
    ensures
        scan(m, seq![b]) == scan_step(m, b),
{
    assert(seq![b].drop_first() =~= Seq::<u8>::empty());
    assert(scan(m, seq![b]) == scan(scan_step(m, b), Seq::<u8>::empty()));
}

/// A mismatch with the `"CONNECT "` prefix, at any reachable position within
/// the first eight bytes, ends the scan rejected and never complete.
proof fn lemma_prefix_mismatch(m: ScanState, input: Seq<u8>)
    requires
        !m.finished(),
        m.prefix_matched < 8,
        exists|i: int|
            0 <= i < input.len() && m.prefix_matched + i < 8 && input[i] != connect_prefix()[
                m.prefix_matched + i],
    ensures
        scan(m, input).rejected,
        !scan(m, input).done,
    decreases input.len(),
{
    let i0 = choose|i: int|
        0 <= i < input.len() && m.prefix_matched + i < 8 && input[i] != connect_prefix()[
            m.prefix_matched + i];
    let b = input[0];
    let m2 = scan_step(m, b);
    if b != connect_prefix()[m.prefix_matched as int] {
        lemma_scan_finished(m2, input.drop_first());
    } else {
        assert(input.drop_first()[i0 - 1] == input[i0]);
        assert(0 <= i0 - 1 < input.drop_first().len() && m2.prefix_matched + (i0 - 1) < 8
            && input.drop_first()[i0 - 1] != connect_prefix()[m2.prefix_matched + (i0 - 1)]);
        lemma_prefix_mismatch(m2, input.drop_first());
    }
}

/// Flattening a chunk list splits at any chunk boundary.
proof fn lemma_flatten_split(chunks: Seq<Seq<u8>>, k: int)
    requires
        0 <= k <= chunks.len(),
    ensures
        chunks.flatten() == chunks.take(k).flatten() + chunks.skip(k).flatten(),
    decreases k,
{
    if k == 0 {
        assert(chunks.take(0).flatten() =~= Seq::<u8>::empty());
        assert(chunks.skip(0) =~= chunks);
        assert(chunks.take(0).flatten() + chunks.flatten() =~= chunks.flatten());
    } else {
        let rest = chunks.drop_first();
        lemma_flatten_split(rest, k - 1);
        assert(chunks.take(k).drop_first() =~= rest.take(k - 1));
        assert(chunks.skip(k) =~= rest.skip(k - 1));
        assert(chunks.take(k).first() == chunks.first());
        assert(chunks.first() + (rest.take(k - 1).flatten() + rest.skip(k - 1).flatten()) =~= (
        chunks.first() + rest.take(k - 1).flatten()) + rest.skip(k - 1).flatten());
    }
}

/// A stream whose first eight bytes are not exactly `"CONNECT "`, delivered
/// in any number of reads cut anywhere: at no read boundary has the scan
/// completed — so, by the handler's contract, no target is ever dialed — and
/// once every byte has arrived the scan stands rejected — so the client has
/// been answered with exactly the rejection response.
pub proof fn lemma_non_connect_never_completes(chunks: Seq<Seq<u8>>, k: int, limit: nat)
    requires
        chunks.flatten().len() >= 8,
        chunks.flatten().take(8) != connect_prefix(),
        0 <= k <= chunks.len(),
    ensures
        !scan_chunks(scan_init(limit), chunks.take(k)).done,
        scan_chunks(scan_init(limit), chunks).rejected,
{
    let m0 = scan_init(limit);
    lemma_scan_chunks_flatten(m0, chunks);
    lemma_non_connect_rejected(chunks.flatten(), limit);
    lemma_flatten_split(chunks, k);
    lemma_prefix_not_done(m0, chunks.take(k).flatten(), chunks.skip(k).flatten());
    lemma_scan_chunks_flatten(m0, chunks.take(k));
}

/// A stream whose first eight bytes are not exactly `"CONNECT "` is
/// rejected: the scan ends rejected and never complete, whatever follows.
/// Together with the handler's contract this means such a client is answered
/// with exactly the rejection response and no target is ever dialed.
pub proof fn lemma_non_connect_rejected(input: Seq<u8>, limit: nat)
    requires
        input.len() >= 8,
        input.take(8) != connect_prefix(),
    ensures
        scan(scan_init(limit), input).rejected,
        !scan(scan_init(limit), input).done,
{
    assert(exists|i: int| 0 <= i < 8 && input[i] != connect_prefix()[i]) by {
        if forall|i: int| 0 <= i < 8 ==> input[i] == connect_prefix()[i] {
            assert(input.take(8) =~= connect_prefix());
        }
    }
    let i0 = choose|i: int| 0 <= i < 8 && input[i] != connect_prefix()[i];
    let m = scan_init(limit);
    assert(0 <= i0 < input.len() && m.prefix_matched + i0 < 8 && input[i0] != connect_prefix()[
        m.prefix_matched + i0]);
    lemma_prefix_mismatch(m, input);
}

/// Bytes that match the prefix advance the prefix counter and change nothing
/// else.
proof fn lemma_scan_prefix_matches(m: ScanState, bytes: Seq<u8>)
    requires
        !m.finished(),
        m.prefix_matched + bytes.len() <= 8,
        forall|i: int|
            0 <= i < bytes.len() ==> bytes[i] == connect_prefix()[m.prefix_matched + i],
    ensures
        scan(m, bytes) == (ScanState { prefix_matched: (m.prefix_matched + bytes.len()) as nat, ..m }),
    decreases bytes.len(),
{
    if bytes.len() == 0 {
        assert(scan(m, bytes) =~= (ScanState {
            prefix_matched: (m.prefix_matched + bytes.len()) as nat,
            ..m
        }));
    } else {
        let m2 = scan_step(m, bytes[0]);
        assert(bytes[0] == connect_prefix()[m.prefix_matched as int]);
        assert(forall|i: int|
            0 <= i < bytes.drop_first().len() ==> bytes.drop_first()[i] == connect_prefix()[
                m2.prefix_matched + i]);
        lemma_scan_prefix_matches(m2, bytes.drop_first());
        assert(scan(m, bytes) =~= (ScanState {
            prefix_matched: (m.prefix_matched + bytes.len()) as nat,
            ..m
        }));
    }
}

/// After the prefix and before any colon, plain bytes accumulate into the
/// host in order.
proof fn lemma_scan_host_bytes(m: ScanState, bytes: Seq<u8>)
    requires
        !m.finished(),
        m.prefix_matched == 8,
        !m.in_port,
        forall|i: int|
            0 <= i < bytes.len() ==> bytes[i] != SPACE_BYTE && bytes[i] != COLON_BYTE,
        m.host.len() + m.port.len() + bytes.len() <= m.limit,
    ensures
        scan(m, bytes) == (ScanState { host: m.host + bytes, ..m }),
    decreases bytes.len(),
{
    if bytes.len() == 0 {
        assert(m.host + bytes =~= m.host);
        assert(scan(m, bytes) =~= (ScanState { host: m.host + bytes, ..m }));
    } else {
        let m2 = scan_step(m, bytes[0]);
        assert(m2 == (ScanState { host: m.host.push(bytes[0]), ..m }));
        lemma_scan_host_bytes(m2, bytes.drop_first());
        assert(m.host.push(bytes[0]) + bytes.drop_first() =~= m.host + bytes);
        assert(scan(m, bytes) =~= (ScanState { host: m.host + bytes, ..m }));
    }
}

/// After the colon, plain bytes accumulate into the port in order.
proof fn lemma_scan_port_bytes(m: ScanState, bytes: Seq<u8>)
    requires
        !m.finished(),
        m.prefix_matched == 8,
        m.in_port,
        forall|i: int|
            0 <= i < bytes.len() ==> bytes[i] != SPACE_BYTE && bytes[i] != COLON_BYTE,
        m.host.len() + m.port.len() + bytes.len() <= m.limit,
    ensures
        scan(m, bytes) == (ScanState { port: m.port + bytes, ..m }),
    decreases bytes.len(),
{
    if bytes.len() == 0 {
        assert(m.port + bytes =~= m.port);
        assert(scan(m, bytes) =~= (ScanState { port: m.port + bytes, ..m }));
    } else {
        let m2 = scan_step(m, bytes[0]);
        assert(m2 == (ScanState { port: m.port.push(bytes[0]), ..m }));
        lemma_scan_port_bytes(m2, bytes.drop_first());
        assert(m.port.push(bytes[0]) + bytes.drop_first() =~= m.port + bytes);
        assert(scan(m, bytes) =~= (ScanState { port: m.port + bytes, ..m }));
    }
}

/// A request line `"CONNECT host:port ..."` whose host and port hold neither
/// a space nor a colon, and together fit under the cap, scans to completion
/// with exactly that host and that port, whatever bytes follow the space —
/// and, by [`lemma_scan_append`], however the stream is chunked across reads.
pub proof fn lemma_connect_target_parsed(host: Seq<u8>, port: Seq<u8>, rest: Seq<u8>, limit: nat)
    requires
        forall|i: int|
            0 <= i < host.len() ==> host[i] != SPACE_BYTE && host[i] != COLON_BYTE,
        forall|i: int|
            0 <= i < port.len() ==> port[i] != SPACE_BYTE && port[i] != COLON_BYTE,
        host.len() + port.len() <= limit,
    ensures
        ({
            let s = scan(
                scan_init(limit),
                connect_prefix() + host + seq![COLON_BYTE] + port + seq![SPACE_BYTE] + rest,
            );
            s.done && !s.rejected && !s.overflow && s.host == host && s.port == port
        }),
{
    let m0 = scan_init(limit);
    let a1 = connect_prefix();
    let a2 = a1 + host;
    let a3 = a2 + seq![COLON_BYTE];
    let a4 = a3 + port;
    let a5 = a4 + seq![SPACE_BYTE];
    let input = a5 + rest;

    lemma_scan_append(m0, a5, rest);
    lemma_scan_append(m0, a4, seq![SPACE_BYTE]);
    lemma_scan_append(m0, a3, port);
    lemma_scan_append(m0, a2, seq![COLON_BYTE]);
    lemma_scan_append(m0, a1, host);

    lemma_scan_prefix_matches(m0, a1);
    let m1 = scan(m0, a1);
    assert(m1 == (ScanState { prefix_matched: 8nat, ..m0 }));

    lemma_scan_host_bytes(m1, host);
    let m2 = scan(m1, host);
    assert(m2.host =~= host);

    lemma_scan_one(m2, COLON_BYTE);
    let m3 = scan(m2, seq![COLON_BYTE]);
    assert(m3 == (ScanState { in_port: true, ..m2 }));

    lemma_scan_port_bytes(m3, port);
    let m4 = scan(m3, port);
    assert(m4.port =~= port);

    lemma_scan_one(m4, SPACE_BYTE);
    let m5 = scan(m4, seq![SPACE_BYTE]);
    assert(m5 == (ScanState { done: true, ..m4 }));

    lemma_scan_finished(m5, rest);
    assert(scan(m0, input) == m5);
}

/// The chunked form of [`lemma_connect_target_parsed`]: a valid request line
/// `"CONNECT host:port ..."` yields exactly that host and that port no matter
/// how many reads deliver it or where they cut it — split at every single
/// byte included.
pub proof fn lemma_connect_target_parsed_chunked(
    chunks: Seq<Seq<u8>>,
    host: Seq<u8>,
    port: Seq<u8>,
    rest: Seq<u8>,
    limit: nat,
)
    requires
        chunks.flatten() == connect_prefix() + host + seq![COLON_BYTE] + port + seq![SPACE_BYTE]
            + rest,
        forall|i: int|
            0 <= i < host.len() ==> host[i] != SPACE_BYTE && host[i] != COLON_BYTE,
        forall|i: int|
            0 <= i < port.len() ==> port[i] != SPACE_BYTE && port[i] != COLON_BYTE,
        host.len() + port.len() <= limit,
    ensures
        ({
            let s = scan_chunks(scan_init(limit), chunks);
            s.done && !s.rejected && !s.overflow && s.host == host && s.port == port
        }),
{
    lemma_scan_chunks_flatten(scan_init(limit), chunks);
    lemma_connect_target_parsed(host, port, rest, limit);
}

/// What a chunk of freshly consumed bytes has settled, if anything.
#[derive(Clone, Copy, Debug, PartialEq, Eq, Structural)]
pub enum ScanStatus {
    /// The request line is still incomplete: keep reading.
    NeedMore,
    /// A byte within the first eight differed from `"CONNECT "`.
    Rejected,
    /// The accumulated target outgrew the configured cap.
    Malformed,
    /// A space ended the scan: the target is fully read.
    Complete,
}

/// The status a scan state reports, in the order the terminal flags can be
/// set: rejection and overflow preclude completion.
pub open spec fn scan_status(m: ScanState) -> ScanStatus {
    if m.rejected {
        ScanStatus::Rejected
    } else if m.overflow {
        ScanStatus::Malformed
    } else if m.done {
        ScanStatus::Complete
    } else {
        ScanStatus::NeedMore
    }
}

/// Why a completed request line still failed to yield a target.
#[derive(Clone, Copy, Debug, PartialEq, Eq, Structural)]
pub enum MalformedReason {
    /// The accumulated host bytes are not valid UTF-8.
    HostNotText,
    /// The accumulated port bytes are not valid UTF-8.
    PortNotText,
}

/// The incremental request-line parser. Its abstract value is a [`ScanState`];
/// feeding it a chunk of bytes advances that state by [`scan`].
pub struct Parser {
    prefix_matched: u8,
    rejected: bool,
    overflow: bool,
    done: bool,
    in_port: bool,
    host: Vec<u8>,
    port: Vec<u8>,
    limit: usize,
}

impl View for Parser {
    type V = ScanState;

    closed spec fn view(&self) -> ScanState {
        ScanState {
            prefix_matched: self.prefix_matched as nat,
            rejected: self.rejected,
            overflow: self.overflow,
            done: self.done,
            in_port: self.in_port,
            host: self.host@,
            port: self.port@,
            limit: self.limit as nat,
        }
    }
}

/// The byte of `"CONNECT "` at position `i`.
fn prefix_byte(i: u8) -> (r: u8)
    requires
        i < 8,
    ensures
        r == connect_prefix()[i as int],
{
    if i == 0 {
        67
    } else if i == 1 {
        79
    } else if i == 2 {
        78
    } else if i == 3 {
        78
    } else if i == 4 {
        69
    } else if i == 5 {
        67
    } else if i == 6 {
        84
    } else {
        32
    }
}

/// Relies on core::str::from_utf8: it returns Ok exactly when the input is
/// valid UTF-8, and the returned str is backed by exactly the input bytes.
#[verifier::external_body]
fn bytes_as_str<'a>(v: &'a [u8]) -> (r: Option<&'a str>)
    ensures
        r is Some <==> valid_utf8(v@),
        r matches Some(s) ==> s.spec_bytes() == v@,
{
    core::str::from_utf8(v).ok()
}

impl Parser {
    #[verifier::type_invariant]
    spec fn inv(self) -> bool {
        self.prefix_matched <= 8 && self.host@.len() + self.port@.len() <= self.limit
    }

    /// A fresh parser with no cap on the accumulated target length beyond the
    /// machine's address space, matching the uncapped default behaviour.
    pub fn new() -> (r: Parser)
        ensures
            r@ == scan_init(usize::MAX as nat),
    {
        Self::with_limit(usize::MAX)
    }

    /// A fresh parser that treats a target whose host and port together
    /// exceed `limit` bytes as malformed.
    pub fn with_limit(limit: usize) -> (r: Parser)
        ensures
            r@ == scan_init(limit as nat),
    {
        let p = Parser {
            prefix_matched: 0,
            rejected: false,
            overflow: false,
            done: false,
            in_port: false,
            host: Vec::new(),
            port: Vec::new(),
            limit: limit,
        };
        proof {
            assert(p@ =~= scan_init(limit as nat));
        }
        p
    }

    /// Consume one chunk of bytes read from the inbound stream, advancing the
    /// scan state exactly as [`scan`] does, and report what the chunk settled.
    pub fn feed(&mut self, buf: &[u8]) -> (r: ScanStatus)
        ensures
            final(self)@ == scan(old(self)@, buf@),
            r == scan_status(final(self)@),
    {
        let ghost m0 = self@;
        let mut i: usize = 0;
        while i < buf.len()
            invariant
                i <= buf.len(),
                self@ == scan(m0, buf@.take(i as int)),
            decreases buf.len() - i,
        {
            proof {
                use_type_invariant(&*self);
                lemma_scan_snoc(m0, buf@, i as int);
            }
            let b = buf[i];
            if !(self.rejected || self.overflow || self.done) {
                if self.prefix_matched < 8 {
                    if b == prefix_byte(self.prefix_matched) {
                        self.prefix_matched = self.prefix_matched + 1;
                    } else {
                        self.rejected = true;
                    }
                } else if b == SPACE_BYTE {
                    self.done = true;
                } else if b == COLON_BYTE {
                    self.in_port = true;
                } else if self.host.len() >= self.limit - self.port.len() {
                    self.overflow = true;
                } else if self.in_port {
                    let mut grown: Vec<u8> = Vec::new();
                    std::mem::swap(&mut grown, &mut self.port);
                    grown.push(b);
                    std::mem::swap(&mut grown, &mut self.port);
                } else {
                    let mut grown: Vec<u8> = Vec::new();
                    std::mem::swap(&mut grown, &mut self.host);
                    grown.push(b);
                    std::mem::swap(&mut grown, &mut self.host);
                }
            }
            i = i + 1;
            proof {
                assert(self@ =~= scan(m0, buf@.take(i as int)));
            }
        }
        proof {
            assert(buf@.take(buf.len() as int) =~= buf@);
        }
        if self.rejected {
            ScanStatus::Rejected
        } else if self.overflow {
            ScanStatus::Malformed
        } else if self.done {
            ScanStatus::Complete
        } else {
            ScanStatus::NeedMore
        }
    }

    /// Turn a completed scan into the target pair. The host and port come
    /// back as text holding exactly the accumulated bytes; if either is not
    /// valid UTF-8 the target is malformed, the host being checked first.
    pub fn take_target(self) -> (r: Result<(String, String), MalformedReason>)
        requires
            self@.done,
        ensures
            r is Ok <==> valid_utf8(self@.host) && valid_utf8(self@.port),
            r matches Ok(t) ==> encode_utf8(t.0@) == self@.host && encode_utf8(t.1@) == self@.port,
            r matches Err(e) ==> (e == MalformedReason::HostNotText <==> !valid_utf8(self@.host)),
            r matches Err(e) ==> (e == MalformedReason::PortNotText <==> valid_utf8(self@.host)
                && !valid_utf8(self@.port)),
    {
        match bytes_as_str(self.host.as_slice()) {
            Option::None => Result::Err(MalformedReason::HostNotText),
            Option::Some(h) => match bytes_as_str(self.port.as_slice()) {
                Option::None => Result::Err(MalformedReason::PortNotText),
                Option::Some(p) => Result::Ok((h.to_owned(), p.to_owned())),
            },
        }
    }
}

} // verus!
