use crate::errors::Error;
use crate::model::{Server, Status};
use crate::models::{Packet, ParseResult};
use crate::net::SocketAddr;
use crate::value::{Value, ValueView};
use crate::text::{hex_bytes, hex_string, string_from_utf8};
use crate::value::StrMap;
use vstd::prelude::*;
use vstd::utf8::*;

verus! {

/// Company and spectator limits, sent from protocol version 2 on.
#[derive(Clone, Copy, Debug, PartialEq, Eq, Structural)]
pub struct V2Data {
    pub max_companies: u8,
    pub current_companies: u8,
    pub max_spectators: u8,
}

/// The game's current and start dates as Unix timestamps (seconds), sent
/// from protocol version 3 on.
#[derive(Clone, Copy, Debug, PartialEq, Eq, Structural)]
pub struct V3Data {
    pub current_time: i64,
    pub start_time: i64,
}

/// The active NewGRFs (id to MD5 hash, both as lowercase hex), sent from
/// protocol version 4 on.
#[derive(Clone, Debug, PartialEq, Eq)]
pub struct V4Data {
    pub active_newgrf: StrMap<String>,
}

/// The version of the server-info packet, with the data each version adds.
#[derive(Clone, Debug, PartialEq, Eq)]
pub enum ProtocolVer {
    V1,
    V2(V2Data),
    V3(V2Data, V3Data),
    V4(V2Data, V3Data, V4Data),
}

/// What an OpenTTD server says about itself.
#[derive(Clone, Debug, PartialEq, Eq)]
pub struct ServerInfo {
    pub protocol_ver: ProtocolVer,
    pub name: String,
    pub server_version: String,
    pub language_id: u8,
    pub need_pass: bool,
    pub max_clients: u8,
    pub num_clients: u8,
    pub current_spectators: u8,
    pub map: String,
    pub map_set: u8,
    pub dedicated: bool,
}

/// The mathematical value of a [`ProtocolVer`].
pub enum SpecProtocolVer {
    V1,
    V2(V2Data),
    V3(V2Data, V3Data),
    V4(V2Data, V3Data, Map<Seq<char>, Seq<char>>),
}

/// The mathematical value of a [`ServerInfo`].
pub struct SpecServerInfo {
    pub protocol_ver: SpecProtocolVer,
    pub name: Seq<char>,
    pub server_version: Seq<char>,
    pub language_id: u8,
    pub need_pass: bool,
    pub max_clients: u8,
    pub num_clients: u8,
    pub current_spectators: u8,
    pub map: Seq<char>,
    pub map_set: u8,
    pub dedicated: bool,
}

impl View for ProtocolVer {
    type V = SpecProtocolVer;

    open spec fn view(&self) -> SpecProtocolVer {
        match self {
            ProtocolVer::V1 => SpecProtocolVer::V1,
            ProtocolVer::V2(a) => SpecProtocolVer::V2(*a),
            ProtocolVer::V3(a, b) => SpecProtocolVer::V3(*a, *b),
            ProtocolVer::V4(a, b, c) => SpecProtocolVer::V4(*a, *b, c.active_newgrf@),
        }
    }
}

impl View for ServerInfo {
    type V = SpecServerInfo;

    open spec fn view(&self) -> SpecServerInfo {
        SpecServerInfo {
            protocol_ver: self.protocol_ver@,
            name: self.name@,
            server_version: self.server_version@,
            language_id: self.language_id,
            need_pass: self.need_pass,
            max_clients: self.max_clients,
            num_clients: self.num_clients,
            current_spectators: self.current_spectators,
            map: self.map@,
            map_set: self.map_set,
            dedicated: self.dedicated,
        }
    }
}

/// The number of a protocol version.
pub open spec fn spec_version_number(v: SpecProtocolVer) -> u8 {
    match v {
        SpecProtocolVer::V1 => 1,
        SpecProtocolVer::V2(..) => 2,
        SpecProtocolVer::V3(..) => 3,
        SpecProtocolVer::V4(..) => 4,
    }
}

impl ProtocolVer {
    /// The number of the version (`u8::from(&ProtocolVer)`).
    pub fn number(&self) -> (r: u8)
        ensures
            r == spec_version_number(self@),
    {
        match self {
            ProtocolVer::V1 => 1,
            ProtocolVer::V2(_) => 2,
            ProtocolVer::V3(_, _) => 3,
            ProtocolVer::V4(_, _, _) => 4,
        }
    }
}

// The wire format. Each reader takes the packet and a position and gives
// the value read and the position after it, or nothing when the packet is
// too short or malformed.

/// One byte.
pub open spec fn spec_u8(s: Seq<u8>, p: int) -> Option<(u8, int)> {
    if 0 <= p < s.len() { Some((s[p], p + 1)) } else { None }
}

/// `n` bytes that are not looked at.
pub open spec fn spec_skip(s: Seq<u8>, p: int, n: int) -> Option<int> {
    if 0 <= p && p + n <= s.len() { Some(p + n) } else { None }
}

/// The big-endian value of four bytes.
pub open spec fn be_u32(b0: u8, b1: u8, b2: u8, b3: u8) -> int {
    b0 * 16777216 + b1 * 65536 + b2 * 256 + b3
}

/// A big-endian `u32` (network byte order).
pub open spec fn spec_be_u32(s: Seq<u8>, p: int) -> Option<(int, int)> {
    if 0 <= p && p + 4 <= s.len() {
        Some((be_u32(s[p], s[p + 1], s[p + 2], s[p + 3]), p + 4))
    } else {
        None
    }
}

/// The position of the first zero byte at or after `p`.
pub open spec fn spec_terminator(s: Seq<u8>, p: int) -> Option<int> {
    if exists|z: int| p <= z < s.len() && s[z] == 0 {
        Some(choose|z: int| p <= z < s.len() && s[z] == 0 && forall|k: int| p <= k < z ==> s[k] != 0)
    } else {
        None
    }
}

/// A zero-terminated UTF-8 string.
pub open spec fn spec_cstring(s: Seq<u8>, p: int) -> Option<(Seq<char>, int)> {
    match spec_terminator(s, p) {
        Some(z) => if 0 <= p && valid_utf8(s.subrange(p, z)) {
            Some((decode_utf8(s.subrange(p, z)), z + 1))
        } else {
            None
        },
        None => None,
    }
}

pub open spec fn spec_v2(s: Seq<u8>, p: int) -> Option<(V2Data, int)> {
    if 0 <= p && p + 3 <= s.len() {
        Some((V2Data { max_companies: s[p], current_companies: s[p + 1], max_spectators: s[p + 2] }, p + 3))
    } else {
        None
    }
}

pub open spec fn spec_v3(s: Seq<u8>, p: int) -> Option<(V3Data, int)> {
    match spec_be_u32(s, p) {
        Some((a, q)) => match spec_be_u32(s, q) {
            Some((b, r)) => Some((V3Data { current_time: a as i64, start_time: b as i64 }, r)),
            None => None,
        },
        None => None,
    }
}

/// The first `n` NewGRF records (a 4-byte id and a 16-byte hash each),
/// each inserted into the map in turn.
pub open spec fn spec_newgrfs(s: Seq<u8>, p: int, n: nat) -> Option<(Map<Seq<char>, Seq<char>>, int)>
    decreases n,
{
    if n == 0 {
        if 0 <= p <= s.len() { Some((Map::empty(), p)) } else { None }
    } else {
        match spec_newgrfs(s, p, (n - 1) as nat) {
            Some((m, q)) => if q + 20 <= s.len() {
                Some((
                    m.insert(
                        decode_utf8(hex_bytes(s.subrange(q, q + 4))),
                        decode_utf8(hex_bytes(s.subrange(q + 4, q + 20))),
                    ),
                    q + 20,
                ))
            } else {
                None
            },
            None => None,
        }
    }
}

/// A count byte, then that many NewGRF records.
pub open spec fn spec_v4(s: Seq<u8>, p: int) -> Option<(Map<Seq<char>, Seq<char>>, int)> {
    match spec_u8(s, p) {
        Some((n, q)) => spec_newgrfs(s, q, n as nat),
        None => None,
    }
}

/// The version byte and the version data. Versions 0 and 1 carry nothing;
/// 2 carries the limits; 3 the dates then the limits; 4 the NewGRFs, then
/// the dates, then the limits.
pub open spec fn spec_protocol_ver(s: Seq<u8>, p: int) -> Option<(SpecProtocolVer, int)> {
    match spec_u8(s, p) {
        Some((v, q)) => if v <= 1 {
            Some((SpecProtocolVer::V1, q))
        } else if v == 2 {
            match spec_v2(s, q) {
                Some((v2, r)) => Some((SpecProtocolVer::V2(v2), r)),
                None => None,
            }
        } else if v == 3 {
            match spec_v3(s, q) {
                Some((v3, r)) => match spec_v2(s, r) {
                    Some((v2, t)) => Some((SpecProtocolVer::V3(v2, v3), t)),
                    None => None,
                },
                None => None,
            }
        } else if v == 4 {
            match spec_v4(s, q) {
                Some((v4, r)) => match spec_v3(s, r) {
                    Some((v3, t)) => match spec_v2(s, t) {
                        Some((v2, w)) => Some((SpecProtocolVer::V4(v2, v3, v4), w)),
                        None => None,
                    },
                    None => None,
                },
                None => None,
            }
        } else {
            None
        },
        None => None,
    }
}

/// The fields after the two version strings: language, password flag,
/// client limit, client count, spectator count.
pub open spec fn spec_counts(s: Seq<u8>, p: int) -> Option<((u8, bool, u8, u8, u8), int)> {
    if 0 <= p && p + 5 <= s.len() {
        Some(((s[p], s[p + 1] > 0, s[p + 2], s[p + 3], s[p + 4]), p + 5))
    } else {
        None
    }
}

/// What follows the two version strings: the counts, (before version 3) 4
/// bytes of dates that are skipped, the map name, 4 bytes of map size that
/// are skipped, the map set and the dedicated flag.
pub open spec fn spec_rest(
    s: Seq<u8>,
    p3: int,
    ver: SpecProtocolVer,
    name: Seq<char>,
    server_version: Seq<char>,
) -> Option<SpecServerInfo> {
    match spec_counts(s, p3) {
        Some((c, p4)) => match spec_skip(s, p4, if spec_version_number(ver) < 3 { 4 } else { 0 }) {
            Some(p5) => match spec_cstring(s, p5) {
                Some((map, p6)) => match spec_skip(s, p6, 4) {
                    Some(p7) => if p7 + 2 <= s.len() {
                        Some(SpecServerInfo {
                            protocol_ver: ver,
                            name,
                            server_version,
                            language_id: c.0,
                            need_pass: c.1,
                            max_clients: c.2,
                            num_clients: c.3,
                            current_spectators: c.4,
                            map,
                            map_set: s[p7],
                            dedicated: s[p7 + 1] > 0,
                        })
                    } else {
                        None
                    },
                    None => None,
                },
                None => None,
            },
            None => None,
        },
        None => None,
    }
}

/// The server-info packet: a 3-byte header that is skipped, the version
/// and its data, the server name and version strings, then the rest (see
/// [`spec_rest`]). Bytes after those are ignored.
pub open spec fn spec_parse_data(s: Seq<u8>) -> Option<SpecServerInfo> {
    match spec_skip(s, 0, 3) {
        Some(p0) => match spec_protocol_ver(s, p0) {
            Some((ver, p1)) => match spec_cstring(s, p1) {
                Some((name, p2)) => match spec_cstring(s, p2) {
                    Some((server_version, p3)) => spec_rest(s, p3, ver, name, server_version),
                    None => None,
                },
                None => None,
            },
            None => None,
        },
        None => None,
    }
}

proof fn lemma_newgrfs_fail(s: Seq<u8>, p: int, k: nat, n: nat)
    requires
        k <= n,
        spec_newgrfs(s, p, k) is None,
    ensures
        spec_newgrfs(s, p, n) is None,
    decreases n - k,
{
    if k < n {
        lemma_newgrfs_fail(s, p, k + 1, n);
    }
}

proof fn lemma_newgrfs_pos(s: Seq<u8>, p: int, n: nat)
    requires
        spec_newgrfs(s, p, n) is Some,
    ensures
        ({
            let q = spec_newgrfs(s, p, n).unwrap().1;
            q == p + 20 * n && q <= s.len() && 0 <= p
        }),
    decreases n,
{
    if n > 0 {
        lemma_newgrfs_pos(s, p, (n - 1) as nat);
    }
}

/// Whether `t` holds every byte of `s` from position `p` on, at the same
/// positions (and maybe more bytes after them).
pub open spec fn agrees_from(s: Seq<u8>, t: Seq<u8>, p: int) -> bool {
    &&& 0 <= p
    &&& s.len() <= t.len()
    &&& forall|k: int| #![trigger t[k]] p <= k < s.len() ==> s[k] == t[k]
}

/// A zero byte at or after `p` means there is a first one.
proof fn lemma_first_zero(s: Seq<u8>, p: int, w: int)
    requires
        p <= w < s.len(),
        s[w] == 0,
    ensures
        exists|z: int| p <= z < s.len() && s[z] == 0 && forall|k: int| p <= k < z ==> s[k] != 0,
    decreases w - p,
{
    if exists|k: int| p <= k < w && s[k] == 0 {
        let k = choose|k: int| p <= k < w && s[k] == 0;
        lemma_first_zero(s, p, k);
    } else {
        assert(p <= w < s.len() && s[w] == 0 && forall|k: int| p <= k < w ==> s[k] != 0);
    }
}

proof fn lemma_terminator_agrees(s: Seq<u8>, t: Seq<u8>, p: int, a: int)
    requires
        agrees_from(s, t, a),
        a <= p,
        spec_terminator(s, p) is Some,
    ensures
        spec_terminator(t, p) == spec_terminator(s, p),
        p <= spec_terminator(s, p).unwrap() < s.len(),
{
    let w0 = choose|w: int| p <= w < s.len() && s[w] == 0;
    lemma_first_zero(s, p, w0);
    let z = choose|w: int| p <= w < s.len() && s[w] == 0 && forall|k: int| p <= k < w ==> s[k] != 0;
    assert(p <= z < s.len() && s[z] == 0 && forall|k: int| p <= k < z ==> s[k] != 0);
    assert(t[z] == 0);
    assert forall|k: int| p <= k < z implies t[k] != 0 by {
        assert(s[k] == t[k]);
    }
    let w = choose|w: int| p <= w < t.len() && t[w] == 0 && forall|k: int| p <= k < w ==> t[k] != 0;
    assert(p <= w < t.len() && t[w] == 0 && forall|k: int| p <= k < w ==> t[k] != 0);
    if w < z {
        assert(t[w] != 0);
    } else if z < w {
        assert(t[z] != 0);
    }
    assert(spec_terminator(t, p) == Some(z));
}

proof fn lemma_cstring_agrees(s: Seq<u8>, t: Seq<u8>, p: int, a: int)
    requires
        agrees_from(s, t, a),
        a <= p,
        spec_cstring(s, p) is Some,
    ensures
        spec_cstring(t, p) == spec_cstring(s, p),
        p < spec_cstring(s, p).unwrap().1 <= s.len(),
{
    lemma_terminator_agrees(s, t, p, a);
    let z = spec_terminator(s, p).unwrap();
    let bs = s.subrange(p, z);
    let bt = t.subrange(p, z);
    assert forall|k: int| 0 <= k < bs.len() implies bs[k] == bt[k] by {
        assert(s[p + k] == t[p + k]);
    }
    assert(bs =~= bt);
}

proof fn lemma_newgrfs_agree(s: Seq<u8>, t: Seq<u8>, p: int, n: nat, a: int)
    requires
        agrees_from(s, t, a),
        a <= p,
        spec_newgrfs(s, p, n) is Some,
    ensures
        spec_newgrfs(t, p, n) == spec_newgrfs(s, p, n),
    decreases n,
{
    if n > 0 {
        if spec_newgrfs(s, p, (n - 1) as nat) is None {
            lemma_newgrfs_fail(s, p, (n - 1) as nat, n);
        }
        lemma_newgrfs_agree(s, t, p, (n - 1) as nat, a);
        lemma_newgrfs_pos(s, p, (n - 1) as nat);
        let q = spec_newgrfs(s, p, (n - 1) as nat).unwrap().1;
        assert(s.subrange(q, q + 4) =~= t.subrange(q, q + 4));
        assert(s.subrange(q + 4, q + 20) =~= t.subrange(q + 4, q + 20));
    }
}

proof fn lemma_protocol_ver_agrees(s: Seq<u8>, t: Seq<u8>, p: int, a: int)
    requires
        agrees_from(s, t, a),
        a <= p,
        spec_protocol_ver(s, p) is Some,
    ensures
        spec_protocol_ver(t, p) == spec_protocol_ver(s, p),
{
    assert(t[p] == s[p]);
    let v = s[p];
    if v == 2 {
        assert(spec_v2(t, p + 1) == spec_v2(s, p + 1));
    } else if v == 3 {
        assert(spec_v3(t, p + 1) == spec_v3(s, p + 1));
        let r = spec_v3(s, p + 1).unwrap().1;
        assert(spec_v2(t, r) == spec_v2(s, r));
    } else if v == 4 {
        assert(s[p + 1] == t[p + 1]);
        lemma_newgrfs_agree(s, t, p + 2, s[p + 1] as nat, a);
        assert(spec_v4(t, p + 1) == spec_v4(s, p + 1));
        let r = spec_v4(s, p + 1).unwrap().1;
        lemma_newgrfs_pos(s, p + 2, s[p + 1] as nat);
        assert(spec_v3(t, r) == spec_v3(s, r));
        let w = spec_v3(s, r).unwrap().1;
        assert(spec_v2(t, w) == spec_v2(s, w));
    }
}

proof fn lemma_rest_agrees(s: Seq<u8>, t: Seq<u8>, p3: int, ver: SpecProtocolVer, name: Seq<char>, server_version: Seq<char>, a: int)
    requires
        agrees_from(s, t, a),
        a <= p3,
        spec_rest(s, p3, ver, name, server_version) is Some,
    ensures
        spec_rest(t, p3, ver, name, server_version) == spec_rest(s, p3, ver, name, server_version),
{
    let p5 = spec_skip(s, p3 + 5, if spec_version_number(ver) < 3 { 4 } else { 0 }).unwrap();
    lemma_cstring_agrees(s, t, p5, a);
}

/// Two packets that agree from the end of the version data on, and read
/// as the same version, read as the same server info.
proof fn lemma_after_version_agrees(s: Seq<u8>, t: Seq<u8>, a: int, ver: SpecProtocolVer, p1: int)
    requires
        agrees_from(s, t, a),
        a <= p1,
        spec_protocol_ver(s, 3) == Some((ver, p1)),
        spec_protocol_ver(t, 3) == Some((ver, p1)),
        spec_parse_data(s) is Some,
    ensures
        spec_parse_data(t) == spec_parse_data(s),
{
    lemma_cstring_agrees(s, t, p1, a);
    let (name, p2) = spec_cstring(s, p1).unwrap();
    lemma_cstring_agrees(s, t, p2, a);
    let (server_version, p3) = spec_cstring(s, p2).unwrap();
    lemma_rest_agrees(s, t, p3, ver, name, server_version, a);
}

/// What the server-info packet `s` holds is also what the packet holds
/// with any bytes `t` after it: trailing bytes are ignored.
pub proof fn lemma_parse_data_ignores_trailing_bytes(s: Seq<u8>, t: Seq<u8>)
    requires
        spec_parse_data(s) is Some,
    ensures
        spec_parse_data(s + t) == spec_parse_data(s),
{
    let u = s + t;
    assert(agrees_from(s, u, 0));
    lemma_protocol_ver_agrees(s, u, 3, 0);
    let (ver, p1) = spec_protocol_ver(s, 3).unwrap();
    lemma_after_version_agrees(s, u, 0, ver, p1);
}

/// Version byte 0 reads as version 1: a packet with version byte 0 and the
/// same packet with version byte 1 give the same result.
pub proof fn lemma_parse_data_version_zero_is_one(s: Seq<u8>)
    requires
        s.len() > 3,
        s[3] == 1,
    ensures
        spec_parse_data(s.update(3, 0)) == spec_parse_data(s),
{
    let z = s.update(3, 0);
    assert(agrees_from(s, z, 4));
    assert(agrees_from(z, s, 4));
    assert(spec_protocol_ver(s, 3) == Some((SpecProtocolVer::V1, 4int)));
    assert(spec_protocol_ver(z, 3) == Some((SpecProtocolVer::V1, 4int)));
    if spec_parse_data(s) is Some {
        lemma_after_version_agrees(s, z, 4, SpecProtocolVer::V1, 4);
    }
    if spec_parse_data(z) is Some {
        lemma_after_version_agrees(z, s, 4, SpecProtocolVer::V1, 4);
    }
}

/// Whether the text that starts at `p` of `s` ends at its first zero byte `z`.
pub open spec fn zero_ends_at(s: Seq<u8>, p: int, z: int) -> bool {
    &&& 0 <= p <= z < s.len()
    &&& s[z] == 0
    &&& forall|k: int| p <= k < z ==> s[k] != 0
}

proof fn lemma_terminator_at(s: Seq<u8>, p: int, z: int)
    requires
        zero_ends_at(s, p, z),
    ensures
        spec_terminator(s, p) == Some(z),
{
    let w = choose|w: int| p <= w < s.len() && s[w] == 0 && forall|k: int| p <= k < w ==> s[k] != 0;
    assert(p <= z < s.len() && s[z] == 0 && forall|k: int| p <= k < z ==> s[k] != 0);
    assert(p <= w < s.len() && s[w] == 0 && forall|k: int| p <= k < w ==> s[k] != 0);
    if w < z {
        assert(s[w] != 0);
    } else if z < w {
        assert(s[z] != 0);
    }
}

proof fn lemma_cstring_at(s: Seq<u8>, p: int, z: int)
    requires
        zero_ends_at(s, p, z),
    ensures
        spec_cstring(s, p) == (if valid_utf8(s.subrange(p, z)) { Some((decode_utf8(s.subrange(p, z)), z + 1)) } else { None }),
{
    lemma_terminator_at(s, p, z);
}

/// The big-endian value of the four bytes at `k`.
pub open spec fn be_at(s: Seq<u8>, k: int) -> int {
    s[k] * 16777216 + s[k + 1] * 65536 + s[k + 2] * 256 + s[k + 3]
}

/// Where the fields of a packet of version 1, 2 or 3 stand. After the
/// 3-byte header and the version byte come the version's data (nothing for
/// versions 0 and 1; the company and spectator limits for 2; the current
/// and start dates then the limits for 3), the server name from byte 4, 7
/// or 15, the revision, the language, password flag, client limit, client
/// count and spectator count; for versions 1 and 2 four bytes that are
/// skipped; the map name; four bytes that are skipped; the map set and the
/// dedicated flag.
pub proof fn lemma_parse_data_layout(s: Seq<u8>, info: SpecServerInfo, zn: int, zr: int, zm: int)
    requires
        spec_parse_data(s) == Some(info),
        s.len() > 3,
        s[3] <= 3,
        zero_ends_at(s, if s[3] <= 1 { 4 } else if s[3] == 2 { 7 } else { 15 }, zn),
        zero_ends_at(s, zn + 1, zr),
        zero_ends_at(s, zr + 6 + (if s[3] < 3 { 4int } else { 0int }), zm),
    ensures
        ({
            let n0 = if s[3] <= 1 { 4int } else if s[3] == 2 { 7int } else { 15int };
            let p = zr + 1;
            let m0 = p + 5 + (if s[3] < 3 { 4int } else { 0int });
            &&& info.name == decode_utf8(s.subrange(n0, zn))
            &&& info.server_version == decode_utf8(s.subrange(zn + 1, zr))
            &&& info.language_id == s[p]
            &&& info.need_pass == (s[p + 1] > 0)
            &&& info.max_clients == s[p + 2]
            &&& info.num_clients == s[p + 3]
            &&& info.current_spectators == s[p + 4]
            &&& info.map == decode_utf8(s.subrange(m0, zm))
            &&& info.map_set == s[zm + 5]
            &&& info.dedicated == (s[zm + 6] > 0)
            &&& (s[3] <= 1 ==> info.protocol_ver is V1)
            &&& (s[3] == 2 ==> info.protocol_ver == SpecProtocolVer::V2(
                V2Data { max_companies: s[4], current_companies: s[5], max_spectators: s[6] }))
            &&& (s[3] == 3 ==> (info.protocol_ver matches SpecProtocolVer::V3(v2, v3)
                && v2 == (V2Data { max_companies: s[12], current_companies: s[13], max_spectators: s[14] })
                && v3.current_time == be_at(s, 4) && v3.start_time == be_at(s, 8)))
        }),
{
    let n0 = if s[3] <= 1 { 4int } else if s[3] == 2 { 7int } else { 15int };
    let (ver, p1) = spec_protocol_ver(s, 3).unwrap();
    assert(p1 == n0);
    lemma_cstring_at(s, n0, zn);
    lemma_cstring_at(s, zn + 1, zr);
    let p3 = zr + 1;
    let m0 = p3 + 5 + (if s[3] < 3 { 4int } else { 0int });
    assert(spec_rest(s, p3, ver, decode_utf8(s.subrange(n0, zn)), decode_utf8(s.subrange(zn + 1, zr))) == Some(info));
    lemma_cstring_at(s, m0, zm);
}

/// Where the data of a version-4 packet stands: after the 3-byte header and
/// the version byte comes the NewGRF count, then that many 20-byte records
/// (none when the count is 0), then the current and start dates, then the
/// company and spectator limits, then the server name.
/// The server that a packet of version 1, 2 or 3 describes, read straight
/// off the packet's bytes (see [`lemma_parse_data_layout`] for where they
/// stand): up, named by the text after the version data, with the password
/// flag, client limit and client count of the counts, and the map named by
/// the text after them.
pub proof fn lemma_server_from_packet(s: Seq<u8>, info: SpecServerInfo, srv: Server, addr: SocketAddr, zn: int, zr: int, zm: int)
    requires
        spec_parse_data(s) == Some(info),
        is_server_from_info(srv, addr, info),
        s.len() > 3,
        s[3] <= 3,
        zero_ends_at(s, if s[3] <= 1 { 4 } else if s[3] == 2 { 7 } else { 15 }, zn),
        zero_ends_at(s, zn + 1, zr),
        zero_ends_at(s, zr + 6 + (if s[3] < 3 { 4int } else { 0int }), zm),
    ensures
        ({
            let n0 = if s[3] <= 1 { 4int } else if s[3] == 2 { 7int } else { 15int };
            let p = zr + 1;
            let m0 = p + 5 + (if s[3] < 3 { 4int } else { 0int });
            &&& srv.addr == addr
            &&& srv.status == Status::Up
            &&& srv.name matches Some(n) && n@ == decode_utf8(s.subrange(n0, zn))
            &&& srv.need_pass == Some(s[p + 1] > 0)
            &&& srv.max_clients == Some(s[p + 2] as u64)
            &&& srv.num_clients == Some(s[p + 3] as u64)
            &&& srv.map matches Some(m) && m@ == decode_utf8(s.subrange(m0, zm))
        }),
{
    lemma_parse_data_layout(s, info, zn, zr, zm);
}

proof fn lemma_v4_data(s: Seq<u8>)
    requires
        s.len() > 4,
        s[3] == 4,
        spec_protocol_ver(s, 3) is Some,
    ensures
        ({
            let k = 5 + 20 * s[4];
            spec_protocol_ver(s, 3) matches Some((SpecProtocolVer::V4(v2, v3, grfs), e))
                && e == k + 11
                && v3.current_time == be_at(s, k)
                && v3.start_time == be_at(s, k + 4)
                && v2 == (V2Data { max_companies: s[k + 8], current_companies: s[k + 9], max_spectators: s[k + 10] })
                && (s[4] == 0 ==> grfs == Map::<Seq<char>, Seq<char>>::empty())
        }),
{
    let n = s[4] as nat;
    assert(spec_v4(s, 4) is Some);
    assert(spec_v4(s, 4) == spec_newgrfs(s, 5, n));
    lemma_newgrfs_pos(s, 5, n);
}

/// Where the data of a version-4 packet stands: after the 3-byte header and
/// the version byte comes the NewGRF count, then that many 20-byte records
/// (none when the count is 0), then the current and start dates, then the
/// company and spectator limits, then the server name.
pub proof fn lemma_parse_data_v4_layout(s: Seq<u8>, info: SpecServerInfo, zn: int)
    requires
        spec_parse_data(s) == Some(info),
        s.len() > 4,
        s[3] == 4,
        zero_ends_at(s, 16 + 20 * s[4], zn),
    ensures
        ({
            let k = 5 + 20 * s[4];
            &&& info.protocol_ver matches SpecProtocolVer::V4(v2, v3, grfs)
                && v3.current_time == be_at(s, k)
                && v3.start_time == be_at(s, k + 4)
                && v2 == (V2Data { max_companies: s[k + 8], current_companies: s[k + 9], max_spectators: s[k + 10] })
                && (s[4] == 0 ==> grfs == Map::<Seq<char>, Seq<char>>::empty())
            &&& info.name == decode_utf8(s.subrange(k + 11, zn))
        }),
{
    assert(spec_protocol_ver(s, 3) is Some);
    lemma_v4_data(s);
    let (ver, p1) = spec_protocol_ver(s, 3).unwrap();
    lemma_cstring_at(s, p1, zn);
    let name = decode_utf8(s.subrange(p1, zn));
    assert(spec_cstring(s, p1) == Some((name, zn + 1)));
    let (rv, p3) = spec_cstring(s, zn + 1).unwrap();
    assert(spec_rest(s, p3, ver, name, rv) == Some(info));
}

fn read_u8(buf: &[u8], pos: usize) -> (r: Result<(u8, usize), Error>)
    ensures
        r is Ok <==> spec_u8(buf@, pos as int) is Some,
        r matches Ok((v, q)) ==> spec_u8(buf@, pos as int) == Some((v, q as int)),
        r matches Err(e) ==> e == Error::DataParseError,
{
    if pos < buf.len() {
        Ok((buf[pos], pos + 1))
    } else {
        Err(Error::DataParseError)
    }
}

fn skip(buf: &[u8], pos: usize, n: usize) -> (r: Result<usize, Error>)
    ensures
        r is Ok <==> spec_skip(buf@, pos as int, n as int) is Some,
        r matches Ok(q) ==> spec_skip(buf@, pos as int, n as int) == Some(q as int),
        r matches Err(e) ==> e == Error::DataParseError,
{
    if pos <= buf.len() && n <= buf.len() - pos {
        Ok(pos + n)
    } else {
        Err(Error::DataParseError)
    }
}

fn read_be_u32(buf: &[u8], pos: usize) -> (r: Result<(u32, usize), Error>)
    ensures
        r is Ok <==> spec_be_u32(buf@, pos as int) is Some,
        r matches Ok((v, q)) ==> spec_be_u32(buf@, pos as int) == Some((v as int, q as int)),
        r matches Err(e) ==> e == Error::DataParseError,
{
    if pos <= buf.len() && 4 <= buf.len() - pos {
        let v = (buf[pos] as u32) * 16777216 + (buf[pos + 1] as u32) * 65536 + (buf[pos + 2] as u32) * 256
            + (buf[pos + 3] as u32);
        Ok((v, pos + 4))
    } else {
        Err(Error::DataParseError)
    }
}

fn read_cstring(buf: &[u8], pos: usize) -> (r: Result<(String, usize), Error>)
    ensures
        r is Ok <==> spec_cstring(buf@, pos as int) is Some,
        r matches Ok((v, q)) ==> spec_cstring(buf@, pos as int) == Some((v@, q as int)),
        r matches Err(e) ==> e == Error::DataParseError,
{
    let mut z: usize = pos;
    let mut bytes: Vec<u8> = Vec::new();
    while z < buf.len() && buf[z] != 0
        invariant
            pos <= z,
            z <= buf.len() || z == pos,
            forall|k: int| pos <= k < z ==> buf@[k] != 0,
            bytes@ == buf@.subrange(pos as int, z as int) || z == pos,
            z == pos ==> bytes@.len() == 0,
        decreases buf.len() - z,
    {
        bytes.push(buf[z]);
        assert(bytes@ =~= buf@.subrange(pos as int, z + 1));
        z = z + 1;
    }
    if z >= buf.len() {
        proof {
            if exists|w: int| pos <= w < buf@.len() && buf@[w] == 0 {
                let w = choose|w: int| pos <= w < buf@.len() && buf@[w] == 0;
                assert(buf@[w] != 0);
            }
        }
        return Err(Error::DataParseError);
    }
    assert(bytes@ =~= buf@.subrange(pos as int, z as int));
    proof {
        assert(buf@[z as int] == 0);
        let t = choose|w: int| pos <= w < buf@.len() && buf@[w] == 0 && forall|k: int| pos <= k < w ==> buf@[k] != 0;
        assert(pos <= z && z < buf@.len() && buf@[z as int] == 0 && forall|k: int| pos <= k < z ==> buf@[k] != 0);
        if t < z {
            assert(buf@[t] != 0);
        } else if t > z {
            assert(buf@[z as int] != 0);
        }
        assert(spec_terminator(buf@, pos as int) == Some(z as int));
    }
    match string_from_utf8(bytes) {
        Some(s) => Ok((s, z + 1)),
        None => Err(Error::DataParseError),
    }
}

fn read_v2(buf: &[u8], pos: usize) -> (r: Result<(V2Data, usize), Error>)
    ensures
        r is Ok <==> spec_v2(buf@, pos as int) is Some,
        r matches Ok((v, q)) ==> spec_v2(buf@, pos as int) == Some((v, q as int)),
        r matches Err(e) ==> e == Error::DataParseError,
{
    if pos <= buf.len() && 3 <= buf.len() - pos {
        Ok((V2Data { max_companies: buf[pos], current_companies: buf[pos + 1], max_spectators: buf[pos + 2] }, pos + 3))
    } else {
        Err(Error::DataParseError)
    }
}

fn read_v3(buf: &[u8], pos: usize) -> (r: Result<(V3Data, usize), Error>)
    ensures
        r is Ok <==> spec_v3(buf@, pos as int) is Some,
        r matches Ok((v, q)) ==> spec_v3(buf@, pos as int) == Some((v, q as int)),
        r matches Err(e) ==> e == Error::DataParseError,
{
    let (current, q) = read_be_u32(buf, pos)?;
    let (start, r) = read_be_u32(buf, q)?;
    Ok((V3Data { current_time: current as i64, start_time: start as i64 }, r))
}

fn read_v4(buf: &[u8], pos: usize) -> (r: Result<(V4Data, usize), Error>)
    ensures
        r is Ok <==> spec_v4(buf@, pos as int) is Some,
        r matches Ok((v, q)) ==> spec_v4(buf@, pos as int) == Some((v.active_newgrf@, q as int)),
        r matches Err(e) ==> e == Error::DataParseError,
{
    let (n, start) = read_u8(buf, pos)?;
    let mut map: StrMap<String> = StrMap::new();
    let mut q: usize = start;
    let mut k: u8 = 0;
    assert(map@ =~= Map::<Seq<char>, Seq<char>>::empty());
    while k < n
        invariant
            0 <= k <= n,
            spec_u8(buf@, pos as int) == Some((n, start as int)),
            spec_newgrfs(buf@, start as int, k as nat) == Some((map@, q as int)),
        decreases n - k,
    {
        proof { lemma_newgrfs_pos(buf@, start as int, k as nat); }
        if q > buf.len() || 20 > buf.len() - q {
            proof {
                assert(spec_newgrfs(buf@, start as int, (k + 1) as nat) is None);
                lemma_newgrfs_fail(buf@, start as int, (k + 1) as nat, n as nat);
            }
            return Err(Error::DataParseError);
        }
        let id = hex_string(&buf[q..q + 4]);
        let hash = hex_string(&buf[q + 4..q + 20]);
        assert(buf@.subrange(q as int, q + 4) == buf@.subrange(q as int, q + 4));
        let ghost old_map = map@;
        let ghost idv = id@;
        let ghost hashv = hash@;
        map.insert(id, hash);
        assert(map@ =~= old_map.insert(idv, hashv));
        q = q + 20;
        k = k + 1;
    }
    Ok((V4Data { active_newgrf: map }, q))
}

fn read_protocol_ver(buf: &[u8], pos: usize) -> (r: Result<(ProtocolVer, usize), Error>)
    ensures
        r is Ok <==> spec_protocol_ver(buf@, pos as int) is Some,
        r matches Ok((v, q)) ==> spec_protocol_ver(buf@, pos as int) == Some((v@, q as int)),
        r matches Err(e) ==> e == Error::DataParseError,
{
    let (v, q) = read_u8(buf, pos)?;
    if v <= 1 {
        Ok((ProtocolVer::V1, q))
    } else if v == 2 {
        let (v2, r) = read_v2(buf, q)?;
        Ok((ProtocolVer::V2(v2), r))
    } else if v == 3 {
        let (v3, r) = read_v3(buf, q)?;
        let (v2, t) = read_v2(buf, r)?;
        Ok((ProtocolVer::V3(v2, v3), t))
    } else if v == 4 {
        let (v4, r) = read_v4(buf, q)?;
        let (v3, t) = read_v3(buf, r)?;
        let (v2, w) = read_v2(buf, t)?;
        Ok((ProtocolVer::V4(v2, v3, v4), w))
    } else {
        Err(Error::DataParseError)
    }
}

fn read_counts(buf: &[u8], pos: usize) -> (r: Result<((u8, bool, u8, u8, u8), usize), Error>)
    ensures
        r is Ok <==> spec_counts(buf@, pos as int) is Some,
        r matches Ok((v, q)) ==> spec_counts(buf@, pos as int) == Some((v, q as int)),
        r matches Err(e) ==> e == Error::DataParseError,
{
    if pos <= buf.len() && 5 <= buf.len() - pos {
        Ok(((buf[pos], buf[pos + 1] > 0, buf[pos + 2], buf[pos + 3], buf[pos + 4]), pos + 5))
    } else {
        Err(Error::DataParseError)
    }
}

fn read_rest(buf: &[u8], p3: usize, protocol_ver: ProtocolVer, name: String, server_version: String) -> (r: Result<ServerInfo, Error>)
    ensures
        r is Ok <==> spec_rest(buf@, p3 as int, protocol_ver@, name@, server_version@) is Some,
        r matches Ok(info) ==> spec_rest(buf@, p3 as int, protocol_ver@, name@, server_version@) == Some(info@),
        r matches Err(e) ==> e == Error::DataParseError,
{
    let (c, p4) = read_counts(buf, p3)?;
    let p5 = if protocol_ver.number() < 3 { skip(buf, p4, 4)? } else { skip(buf, p4, 0)? };
    let (map, p6) = read_cstring(buf, p5)?;
    let p7 = skip(buf, p6, 4)?;
    if p7 > buf.len() || 2 > buf.len() - p7 {
        return Err(Error::DataParseError);
    }
    Ok(ServerInfo {
        protocol_ver,
        name,
        server_version,
        language_id: c.0,
        need_pass: c.1,
        max_clients: c.2,
        num_clients: c.3,
        current_spectators: c.4,
        map,
        map_set: buf[p7],
        dedicated: buf[p7 + 1] > 0,
    })
}

/// Parses an OpenTTD server-info packet.
pub fn parse_data(buf: &[u8]) -> (r: Result<ServerInfo, Error>)
    ensures
        r is Ok <==> spec_parse_data(buf@) is Some,
        r matches Ok(info) ==> spec_parse_data(buf@) == Some(info@),
        r matches Err(e) ==> e == Error::DataParseError,
{
    let p0 = skip(buf, 0, 3)?;
    let (protocol_ver, p1) = read_protocol_ver(buf, p0)?;
    let (name, p2) = read_cstring(buf, p1)?;
    let (server_version, p3) = read_cstring(buf, p2)?;
    read_rest(buf, p3, protocol_ver, name, server_version)
}

/// The rules of version 2 data.
pub open spec fn spec_v2_rules(m: Map<Seq<char>, ValueView>, v: V2Data) -> Map<Seq<char>, ValueView> {
    m.insert("max-companies"@, ValueView::Int(v.max_companies as int))
        .insert("current-companies"@, ValueView::Int(v.current_companies as int))
        .insert("max-spectators"@, ValueView::Int(v.max_spectators as int))
}

/// The rules of version 3 data.
pub open spec fn spec_v3_rules(m: Map<Seq<char>, ValueView>, v: V3Data) -> Map<Seq<char>, ValueView> {
    m.insert("current-time"@, ValueView::Int(v.current_time as int)).insert("start-time"@, ValueView::Int(v.start_time as int))
}

/// The rules of version 4 data.
pub open spec fn spec_v4_rules(m: Map<Seq<char>, ValueView>, v: Map<Seq<char>, Seq<char>>) -> Map<Seq<char>, ValueView> {
    m.insert("active-newgrf"@, ValueView::Object(v))
}

/// The rules a server gets from what it says about itself.
pub open spec fn spec_info_rules(info: SpecServerInfo) -> Map<Seq<char>, ValueView> {
    let m0 = Map::<Seq<char>, ValueView>::empty().insert(
        "protocol-version"@,
        ValueView::Int(spec_version_number(info.protocol_ver) as int),
    );
    let m1 = match info.protocol_ver {
        SpecProtocolVer::V1 => m0,
        SpecProtocolVer::V2(v2) => spec_v2_rules(m0, v2),
        SpecProtocolVer::V3(v2, v3) => spec_v3_rules(spec_v2_rules(m0, v2), v3),
        SpecProtocolVer::V4(v2, v3, v4) => spec_v4_rules(spec_v3_rules(spec_v2_rules(m0, v2), v3), v4),
    };
    m1.insert("server-version"@, ValueView::Str(info.server_version))
        .insert("language-id"@, ValueView::Int(info.language_id as int))
        .insert("current-spectators"@, ValueView::Int(info.current_spectators as int))
        .insert("map-set"@, ValueView::Int(info.map_set as int))
        .insert("dedicated"@, ValueView::Bool(info.dedicated))
}

/// Whether `srv` is the server at `addr` described by `info`.
pub open spec fn is_server_from_info(srv: Server, addr: SocketAddr, info: SpecServerInfo) -> bool {
    &&& srv.addr == addr
    &&& srv.status == Status::Up
    &&& srv.country.spec_code() == Seq::<char>::empty()
    &&& srv.rules@ == spec_info_rules(info)
    &&& srv.name matches Some(n) && n@ == info.name
    &&& srv.need_pass == Some(info.need_pass)
    &&& srv.map matches Some(m) && m@ == info.map
    &&& srv.num_clients == Some(info.num_clients as u64)
    &&& srv.max_clients == Some(info.max_clients as u64)
    &&& srv.mod_name is None
    &&& srv.game_type is None
    &&& srv.num_bots is None
    &&& srv.secure is None
    &&& srv.ping is None
    &&& srv.players is None
}

/// The dates of version-3 and version-4 info become the server's
/// "current-time" rule (the current date) and "start-time" rule (the start
/// date); version-1 and version-2 info gives neither rule.
pub proof fn lemma_info_dates(srv: Server, addr: SocketAddr, info: SpecServerInfo)
    requires
        is_server_from_info(srv, addr, info),
    ensures
        match info.protocol_ver {
            SpecProtocolVer::V3(_, v3) => srv.rules@.contains_key("current-time"@)
                && srv.rules@["current-time"@] == ValueView::Int(v3.current_time as int)
                && srv.rules@.contains_key("start-time"@)
                && srv.rules@["start-time"@] == ValueView::Int(v3.start_time as int),
            SpecProtocolVer::V4(_, v3, _) => srv.rules@.contains_key("current-time"@)
                && srv.rules@["current-time"@] == ValueView::Int(v3.current_time as int)
                && srv.rules@.contains_key("start-time"@)
                && srv.rules@["start-time"@] == ValueView::Int(v3.start_time as int),
            _ => !srv.rules@.contains_key("current-time"@) && !srv.rules@.contains_key("start-time"@),
        },
{
    crate::protocols::openttd_server::lemma_response_keys_distinct();
}

/// Each field of the info becomes its own rule: the version number, the
/// revision, the language, the spectator count, the map set and the
/// dedicated flag, and from version 2 on the company and spectator limits.
pub proof fn lemma_info_rules(srv: Server, addr: SocketAddr, info: SpecServerInfo)
    requires
        is_server_from_info(srv, addr, info),
    ensures
        srv.rules@.contains_key("protocol-version"@),
        srv.rules@["protocol-version"@] == ValueView::Int(match info.protocol_ver {
            SpecProtocolVer::V1 => 1int,
            SpecProtocolVer::V2(..) => 2int,
            SpecProtocolVer::V3(..) => 3int,
            SpecProtocolVer::V4(..) => 4int,
        }),
        srv.rules@.contains_key("server-version"@) && srv.rules@["server-version"@] == ValueView::Str(info.server_version),
        srv.rules@.contains_key("language-id"@) && srv.rules@["language-id"@] == ValueView::Int(info.language_id as int),
        srv.rules@.contains_key("current-spectators"@) && srv.rules@["current-spectators"@] == ValueView::Int(info.current_spectators as int),
        srv.rules@.contains_key("map-set"@) && srv.rules@["map-set"@] == ValueView::Int(info.map_set as int),
        srv.rules@.contains_key("dedicated"@) && srv.rules@["dedicated"@] == ValueView::Bool(info.dedicated),
        match info.protocol_ver {
            SpecProtocolVer::V1 => !srv.rules@.contains_key("max-companies"@) && !srv.rules@.contains_key("active-newgrf"@),
            SpecProtocolVer::V2(v2) | SpecProtocolVer::V3(v2, _) | SpecProtocolVer::V4(v2, _, _) =>
                srv.rules@.contains_key("max-companies"@) && srv.rules@["max-companies"@] == ValueView::Int(v2.max_companies as int)
                && srv.rules@.contains_key("current-companies"@) && srv.rules@["current-companies"@] == ValueView::Int(v2.current_companies as int)
                && srv.rules@.contains_key("max-spectators"@) && srv.rules@["max-spectators"@] == ValueView::Int(v2.max_spectators as int),
        },
        (info.protocol_ver matches SpecProtocolVer::V4(_, _, g) ==> srv.rules@.contains_key("active-newgrf"@)
            && srv.rules@["active-newgrf"@] == ValueView::Object(g)),
        !(info.protocol_ver is V4) ==> !srv.rules@.contains_key("active-newgrf"@),
{
    crate::protocols::openttd_server::lemma_response_keys_distinct();
}

pub(crate) fn insert_rule(srv: &mut Server, key: &str, value: Value)
    ensures
        final(srv).rules@ == old(srv).rules@.insert(key@, value@),
        final(srv).addr == old(srv).addr,
        final(srv).status == old(srv).status,
        final(srv).country == old(srv).country,
        final(srv).name == old(srv).name,
        final(srv).need_pass == old(srv).need_pass,
        final(srv).mod_name == old(srv).mod_name,
        final(srv).game_type == old(srv).game_type,
        final(srv).map == old(srv).map,
        final(srv).num_clients == old(srv).num_clients,
        final(srv).max_clients == old(srv).max_clients,
        final(srv).num_bots == old(srv).num_bots,
        final(srv).secure == old(srv).secure,
        final(srv).ping == old(srv).ping,
        final(srv).players == old(srv).players,
{
    let ghost old_rules = srv.rules@;
    let ghost vv = value@;
    srv.rules.insert(key.to_owned(), value);
    assert(srv.rules@ =~= old_rules.insert(key@, vv));
}

pub(crate) fn write_v2_data(srv: &mut Server, v: V2Data)
    ensures
        final(srv).rules@ == spec_v2_rules(old(srv).rules@, v),
        final(srv).addr == old(srv).addr,
        final(srv).status == old(srv).status,
        final(srv).country == old(srv).country,
        final(srv).name == old(srv).name,
        final(srv).need_pass == old(srv).need_pass,
        final(srv).mod_name == old(srv).mod_name,
        final(srv).game_type == old(srv).game_type,
        final(srv).map == old(srv).map,
        final(srv).num_clients == old(srv).num_clients,
        final(srv).max_clients == old(srv).max_clients,
        final(srv).num_bots == old(srv).num_bots,
        final(srv).secure == old(srv).secure,
        final(srv).ping == old(srv).ping,
        final(srv).players == old(srv).players,
{
    insert_rule(srv, "max-companies", Value::Int(v.max_companies as i64));
    insert_rule(srv, "current-companies", Value::Int(v.current_companies as i64));
    insert_rule(srv, "max-spectators", Value::Int(v.max_spectators as i64));
}

fn write_v3_data(srv: &mut Server, v: V3Data)
    ensures
        final(srv).rules@ == spec_v3_rules(old(srv).rules@, v),
        final(srv).addr == old(srv).addr,
        final(srv).status == old(srv).status,
        final(srv).country == old(srv).country,
        final(srv).name == old(srv).name,
        final(srv).need_pass == old(srv).need_pass,
        final(srv).mod_name == old(srv).mod_name,
        final(srv).game_type == old(srv).game_type,
        final(srv).map == old(srv).map,
        final(srv).num_clients == old(srv).num_clients,
        final(srv).max_clients == old(srv).max_clients,
        final(srv).num_bots == old(srv).num_bots,
        final(srv).secure == old(srv).secure,
        final(srv).ping == old(srv).ping,
        final(srv).players == old(srv).players,
{
    insert_rule(srv, "current-time", Value::Int(v.current_time));
    insert_rule(srv, "start-time", Value::Int(v.start_time));
}

fn write_v4_data(srv: &mut Server, v: V4Data)
    ensures
        final(srv).rules@ == spec_v4_rules(old(srv).rules@, v.active_newgrf@),
        final(srv).addr == old(srv).addr,
        final(srv).status == old(srv).status,
        final(srv).country == old(srv).country,
        final(srv).name == old(srv).name,
        final(srv).need_pass == old(srv).need_pass,
        final(srv).mod_name == old(srv).mod_name,
        final(srv).game_type == old(srv).game_type,
        final(srv).map == old(srv).map,
        final(srv).num_clients == old(srv).num_clients,
        final(srv).max_clients == old(srv).max_clients,
        final(srv).num_bots == old(srv).num_bots,
        final(srv).secure == old(srv).secure,
        final(srv).ping == old(srv).ping,
        final(srv).players == old(srv).players,
{
    insert_rule(srv, "active-newgrf", Value::Object(v.active_newgrf));
}

/// The server at `addr` that `info` describes: up, with its name, map,
/// password flag and client counts, and the rest of `info` as rules.
pub fn server_from_info(addr: SocketAddr, info: ServerInfo) -> (r: Server)
    ensures
        is_server_from_info(r, addr, info@),
{
    let ghost iv = info@;
    let mut srv = Server::new(addr);
    srv.status = Status::Up;
    let number = info.protocol_ver.number();
    insert_rule(&mut srv, "protocol-version", Value::Int(number as i64));
    match info.protocol_ver {
        ProtocolVer::V1 => {}
        ProtocolVer::V2(v2) => {
            write_v2_data(&mut srv, v2);
        }
        ProtocolVer::V3(v2, v3) => {
            write_v2_data(&mut srv, v2);
            write_v3_data(&mut srv, v3);
        }
        ProtocolVer::V4(v2, v3, v4) => {
            write_v2_data(&mut srv, v2);
            write_v3_data(&mut srv, v3);
            write_v4_data(&mut srv, v4);
        }
    }
    insert_rule(&mut srv, "server-version", Value::Str(info.server_version));
    insert_rule(&mut srv, "language-id", Value::Int(info.language_id as i64));
    insert_rule(&mut srv, "current-spectators", Value::Int(info.current_spectators as i64));
    insert_rule(&mut srv, "map-set", Value::Int(info.map_set as i64));
    insert_rule(&mut srv, "dedicated", Value::Bool(info.dedicated));
    srv.name = Some(info.name);
    srv.need_pass = Some(info.need_pass);
    srv.map = Some(info.map);
    srv.num_clients = Some(info.num_clients as u64);
    srv.max_clients = Some(info.max_clients as u64);
    assert(srv.rules@ =~= spec_info_rules(iv));
    srv
}

/// The OpenTTD server protocol.
#[derive(Debug)]
pub struct ProtocolImpl;

impl ProtocolImpl {
    /// The server-info request; it does not depend on `state`.
    pub fn make_request(&self, state: Option<Value>) -> (r: Vec<u8>)
        ensures
            r@ == seq![3u8, 0u8, 0u8],
    {
        let mut out = Vec::new();
        out.push(3u8);
        out.push(0u8);
        out.push(0u8);
        out
    }

    /// Parses a server-info datagram into the one server it describes, or
    /// into one error.
    pub fn parse_response<P>(&self, p: Packet) -> (r: Vec<Result<ParseResult<P>, Error>>)
        ensures
            r@.len() == 1,
            match spec_parse_data(p.data@) {
                Some(info) => r@[0] matches Ok(ParseResult::Output(s)) && is_server_from_info(s, p.addr, info),
                None => r@[0] == Err::<ParseResult<P>, Error>(Error::DataParseError),
            },
    {
        let mut out: Vec<Result<ParseResult<P>, Error>> = Vec::new();
        match parse_data(p.data.as_slice()) {
            Ok(info) => out.push(Ok(ParseResult::Output(server_from_info(p.addr, info)))),
            Err(e) => out.push(Err(e)),
        }
        out
    }
}

} // verus!
