//! Typed domain values decoded from raw routing-data elements, and the
//! decoders that build them.
//!
//! The retrieval engine reports an element as loosely-typed raw fields:
//! version-tagged address bytes, rendered AS-path text, indexed community
//! items, numeric type and state codes, and fixed-width text buffers. The
//! decoders here turn one raw element, together with its parent record's text
//! fields, into a fully owned [`Element`] — all required fields decode, or
//! the whole decode fails with the first error.

use vstd::prelude::*;
use vstd::slice::slice_subrange;
use vstd::string::StringExecFns;
use vstd::utf8::{decode_utf8, valid_utf8};

use crate::aspath::{
    as_path_from_str, find_first, lemma_find_first_at, spec_as_path_from_str, PathEntry,
    PathEntryView,
};

verus! {

/// An autonomous-system number.
pub type ASN = u32;

/// Why a raw element failed to decode.
#[derive(Clone, Debug, Eq, PartialEq)]
pub enum ElementError {
    /// An address carried a version marker other than 4 or 6.
    IpParseError(String),
    /// A token of an AS-path or community set was not a valid number, the
    /// rendered AS-path text was truncated, or a community item was missing.
    AsnParseError,
    /// A text field was not valid UTF-8.
    Utf8Error(String),
    /// The element-type tag, or a peer-session state code, was not recognized.
    UnexpectedType,
    /// A fixed-width text field had no terminator within bounds.
    StringParseError,
}

/// Mathematical shape of an [`ElementError`]: the same variants over
/// character sequences.
pub enum ElementErrorView {
    IpParseError(Seq<char>),
    AsnParseError,
    Utf8Error(Seq<char>),
    UnexpectedType,
    StringParseError,
}

impl View for ElementError {
    type V = ElementErrorView;

    open spec fn view(&self) -> ElementErrorView {
        match self {
            ElementError::IpParseError(s) => ElementErrorView::IpParseError(s@),
            ElementError::AsnParseError => ElementErrorView::AsnParseError,
            ElementError::Utf8Error(s) => ElementErrorView::Utf8Error(s@),
            ElementError::UnexpectedType => ElementErrorView::UnexpectedType,
            ElementError::StringParseError => ElementErrorView::StringParseError,
        }
    }
}

/// A typed network address: the four octets of an IPv4 address or the
/// sixteen octets of an IPv6 address, read in address order as one number.
#[derive(Clone, Copy, Debug, Eq, PartialEq, Structural)]
pub enum IpAddr {
    V4(u32),
    V6(u128),
}

/// An address with a mask length in bits.
#[derive(Clone, Copy, Debug, Eq, PartialEq, Structural)]
pub struct Prefix {
    pub addr: IpAddr,
    pub length: u8,
}

/// A peer BGP session state, as the engine's numeric state codes name them.
#[derive(Clone, Copy, Debug, Eq, PartialEq, Structural)]
pub enum PeerState {
    Active,
    Clearing,
    Connect,
    Deleted,
    Established,
    Idle,
    OpenConfirm,
    OpenSent,
    Unknown,
}

/// Payload of an announcement or RIB element.
#[derive(Debug)]
pub struct AnnouncementData {
    pub prefix: Prefix,
    pub next_hop: IpAddr,
    pub as_path: Vec<PathEntry>,
    pub communities: Vec<(ASN, u16)>,
}

/// Payload of a peer-state element: the session state before and after.
#[derive(Clone, Copy, Debug, Eq, PartialEq, Structural)]
pub struct PeerData {
    pub old_peer_state: PeerState,
    pub new_peer_state: PeerState,
}

/// Payload of a withdrawal element.
#[derive(Clone, Copy, Debug, Eq, PartialEq, Structural)]
pub struct WithdrawlData {
    pub prefix: Prefix,
}

/// The payload variants of an element, matching the element-type tag.
#[derive(Debug)]
pub enum ElementData {
    Announcement(AnnouncementData),
    Rib(AnnouncementData),
    Withdrawl(WithdrawlData),
    PeerState(PeerData),
}

/// One decoded unit of routing information, fully owned by its consumer.
#[derive(Debug)]
pub struct Element {
    /// Seconds since the epoch.
    pub timestamp: u64,
    pub peer_addr: IpAddr,
    pub peer_asn: ASN,
    pub project: String,
    pub collector: String,
    pub data: ElementData,
}

/// Mathematical shape of an [`AnnouncementData`].
pub struct AnnouncementDataView {
    pub prefix: Prefix,
    pub next_hop: IpAddr,
    pub as_path: Seq<PathEntryView>,
    pub communities: Seq<(ASN, u16)>,
}

/// Mathematical shape of an [`ElementData`].
pub enum ElementDataView {
    Announcement(AnnouncementDataView),
    Rib(AnnouncementDataView),
    Withdrawl(WithdrawlData),
    PeerState(PeerData),
}

/// Mathematical shape of an [`Element`].
pub struct ElementView {
    pub timestamp: u64,
    pub peer_addr: IpAddr,
    pub peer_asn: ASN,
    pub project: Seq<char>,
    pub collector: Seq<char>,
    pub data: ElementDataView,
}

impl View for AnnouncementData {
    type V = AnnouncementDataView;

    open spec fn view(&self) -> AnnouncementDataView {
        AnnouncementDataView {
            prefix: self.prefix,
            next_hop: self.next_hop,
            as_path: self.as_path.deep_view(),
            communities: self.communities@,
        }
    }
}

impl View for ElementData {
    type V = ElementDataView;

    open spec fn view(&self) -> ElementDataView {
        match self {
            ElementData::Announcement(a) => ElementDataView::Announcement(a@),
            ElementData::Rib(a) => ElementDataView::Rib(a@),
            ElementData::Withdrawl(w) => ElementDataView::Withdrawl(*w),
            ElementData::PeerState(p) => ElementDataView::PeerState(*p),
        }
    }
}

impl View for Element {
    type V = ElementView;

    open spec fn view(&self) -> ElementView {
        ElementView {
            timestamp: self.timestamp,
            peer_addr: self.peer_addr,
            peer_asn: self.peer_asn,
            project: self.project@,
            collector: self.collector@,
            data: self.data@,
        }
    }
}

/// Raw address storage as the engine reports it: sixteen octets and a
/// version marker, 4 or 6 when valid.
#[derive(Clone, Copy, Debug)]
pub struct RawAddr {
    pub version: u32,
    pub bytes: [u8; 16],
}

/// A raw prefix: address storage plus mask length.
#[derive(Clone, Copy, Debug)]
pub struct RawPrefix {
    pub address: RawAddr,
    pub mask_len: u8,
}

/// An AS-path as rendered into a bounded text buffer of capacity 4096:
/// the rendered bytes (terminator excluded) and the length the renderer
/// reported, which reaching the capacity means truncation.
#[derive(Debug)]
pub struct RawPath {
    pub written: usize,
    pub bytes: Vec<u8>,
}

/// One raw element, all fields as the engine reports them: the community
/// items are what its index-based accessor returned for indices `0..count`,
/// a missing item as `None`.
#[derive(Debug)]
pub struct RawElement {
    pub elem_type: u32,
    pub timestamp: u32,
    pub peer_address: RawAddr,
    pub peer_asnumber: u32,
    pub prefix: RawPrefix,
    pub nexthop: RawAddr,
    pub aspath: RawPath,
    pub communities: Vec<Option<(u16, u16)>>,
    pub old_state: u32,
    pub new_state: u32,
}

/// The parent record's fixed-width text fields.
#[derive(Debug)]
pub struct RawRecord {
    pub dump_collector: Vec<u8>,
    pub dump_project: Vec<u8>,
}

/// The first four octets read as one big-endian number.
pub open spec fn be_u32(s: Seq<u8>) -> u32
    recommends
        s.len() >= 4,
{
    ((s[0] as u32) << 24) | ((s[1] as u32) << 16) | ((s[2] as u32) << 8) | (s[3] as u32)
}

/// All sixteen octets read as one big-endian number.
pub open spec fn be_u128(s: Seq<u8>) -> u128
    recommends
        s.len() >= 16,
{
    ((s[0] as u128) << 120) | ((s[1] as u128) << 112) | ((s[2] as u128) << 104) | ((
    s[3] as u128) << 96) | ((s[4] as u128) << 88) | ((s[5] as u128) << 80) | ((s[6] as u128)
        << 72) | ((s[7] as u128) << 64) | ((s[8] as u128) << 56) | ((s[9] as u128) << 48) | ((
    s[10] as u128) << 40) | ((s[11] as u128) << 32) | ((s[12] as u128) << 24) | ((s[13] as u128)
        << 16) | ((s[14] as u128) << 8) | (s[15] as u128)
}

/// The character of one decimal digit.
pub open spec fn digit_char(d: nat) -> char {
    if d == 0 {
        '0'
    } else if d == 1 {
        '1'
    } else if d == 2 {
        '2'
    } else if d == 3 {
        '3'
    } else if d == 4 {
        '4'
    } else if d == 5 {
        '5'
    } else if d == 6 {
        '6'
    } else if d == 7 {
        '7'
    } else if d == 8 {
        '8'
    } else {
        '9'
    }
}

/// The decimal rendering of a number, most significant digit first, without
/// leading zeroes (zero itself rendered as one digit).
pub open spec fn dec_str(n: nat) -> Seq<char>
    decreases n,
{
    if n < 10 {
        seq![digit_char(n)]
    } else {
        dec_str(n / 10).push(digit_char(n % 10))
    }
}

/// The message of an address-parse error, naming the offending version.
pub open spec fn spec_addr_version_msg(version: u32) -> Seq<char> {
    "Incorrect address version "@ + dec_str(version as nat)
}

fn digit_str(d: u32) -> (r: &'static str)
    requires
        d < 10,
    ensures
        r@ == seq![digit_char(d as nat)],
{
    if d == 0 {
        proof {
            reveal_strlit("0");
            assert("0"@ =~= seq!['0']);
        }
        "0"
    } else if d == 1 {
        proof {
            reveal_strlit("1");
            assert("1"@ =~= seq!['1']);
        }
        "1"
    } else if d == 2 {
        proof {
            reveal_strlit("2");
            assert("2"@ =~= seq!['2']);
        }
        "2"
    } else if d == 3 {
        proof {
            reveal_strlit("3");
            assert("3"@ =~= seq!['3']);
        }
        "3"
    } else if d == 4 {
        proof {
            reveal_strlit("4");
            assert("4"@ =~= seq!['4']);
        }
        "4"
    } else if d == 5 {
        proof {
            reveal_strlit("5");
            assert("5"@ =~= seq!['5']);
        }
        "5"
    } else if d == 6 {
        proof {
            reveal_strlit("6");
            assert("6"@ =~= seq!['6']);
        }
        "6"
    } else if d == 7 {
        proof {
            reveal_strlit("7");
            assert("7"@ =~= seq!['7']);
        }
        "7"
    } else if d == 8 {
        proof {
            reveal_strlit("8");
            assert("8"@ =~= seq!['8']);
        }
        "8"
    } else {
        proof {
            reveal_strlit("9");
            assert("9"@ =~= seq!['9']);
        }
        "9"
    }
}

/// Appends the decimal rendering of `n`.
fn append_dec_digits(s: &mut String, n: u32)
    ensures
        final(s)@ == old(s)@ + dec_str(n as nat),
    decreases n,
{
    if n >= 10 {
        append_dec_digits(s, n / 10);
        let d = digit_str(n % 10);
        s.append(d);
        proof {
            assert(s@ =~= old(s)@ + dec_str(n as nat));
        }
    } else {
        let d = digit_str(n);
        s.append(d);
        proof {
            assert(s@ =~= old(s)@ + dec_str(n as nat));
        }
    }
}

/// Renders the address-parse error message for an invalid version marker.
fn addr_version_msg(version: u32) -> (r: String)
    ensures
        r@ == spec_addr_version_msg(version),
{
    let mut s = "Incorrect address version ".to_owned();
    append_dec_digits(&mut s, version);
    s
}

/// The typed address of raw address storage: version 4 reads the first four
/// octets, version 6 all sixteen, any other version is invalid.
pub open spec fn spec_parse_addr(addr: RawAddr) -> Option<IpAddr> {
    if addr.version == 4 {
        Some(IpAddr::V4(be_u32(addr.bytes@)))
    } else if addr.version == 6 {
        Some(IpAddr::V6(be_u128(addr.bytes@)))
    } else {
        None
    }
}

/// Decodes raw address storage into a typed address.
pub fn parse_addr(addr: RawAddr) -> (r: Result<IpAddr, ElementError>)
    ensures
        match spec_parse_addr(addr) {
            Some(ip) => r == Ok::<IpAddr, ElementError>(ip),
            None => r matches Err(e) && e@ == ElementErrorView::IpParseError(
                spec_addr_version_msg(addr.version),
            ),
        },
{
    let b = &addr.bytes;
    if addr.version == 4 {
        let v: u32 = ((b[0] as u32) << 24) | ((b[1] as u32) << 16) | ((b[2] as u32) << 8) | (
        b[3] as u32);
        Ok(IpAddr::V4(v))
    } else if addr.version == 6 {
        let v: u128 = ((b[0] as u128) << 120) | ((b[1] as u128) << 112) | ((b[2] as u128) << 104)
            | ((b[3] as u128) << 96) | ((b[4] as u128) << 88) | ((b[5] as u128) << 80) | ((
        b[6] as u128) << 72) | ((b[7] as u128) << 64) | ((b[8] as u128) << 56) | ((b[9] as u128)
            << 48) | ((b[10] as u128) << 40) | ((b[11] as u128) << 32) | ((b[12] as u128) << 24)
            | ((b[13] as u128) << 16) | ((b[14] as u128) << 8) | (b[15] as u128);
        Ok(IpAddr::V6(v))
    } else {
        Err(ElementError::IpParseError(addr_version_msg(addr.version)))
    }
}

/// The community pairs of the items an index-based accessor returned, in
/// reported order; `None` when any item was missing.
pub open spec fn spec_parse_communities(items: Seq<Option<(u16, u16)>>) -> Option<
    Seq<(ASN, u16)>,
> {
    if forall|i: int| 0 <= i < items.len() ==> (#[trigger] items[i]) is Some {
        Some(Seq::new(items.len(), |i: int| ((items[i]->0).0 as ASN, (items[i]->0).1)))
    } else {
        None
    }
}

/// Decodes a fetched community set: every item must be present; order is
/// kept exactly as reported.
pub fn parse_communities(items: &Vec<Option<(u16, u16)>>) -> (r: Result<
    Vec<(ASN, u16)>,
    ElementError,
>)
    ensures
        match spec_parse_communities(items@) {
            Some(cs) => r matches Ok(v) && v@ == cs,
            None => r == Err::<Vec<(ASN, u16)>, ElementError>(ElementError::AsnParseError),
        },
{
    let mut res: Vec<(ASN, u16)> = Vec::new();
    let mut i: usize = 0;
    while i < items.len()
        invariant
            i <= items@.len(),
            res@.len() == i,
            forall|k: int| 0 <= k < i ==> (#[trigger] items@[k]) is Some,
            forall|k: int|
                0 <= k < i ==> res@[k] == ((items@[k]->0).0 as ASN, (items@[k]->0).1),
        decreases items@.len() - i,
    {
        match items[i] {
            None => {
                return Err(ElementError::AsnParseError);
            },
            Some(c) => {
                res.push((c.0 as ASN, c.1));
            },
        }
        i = i + 1;
    }
    proof {
        assert(Seq::new(items@.len(), |i: int| ((items@[i]->0).0 as ASN, (items@[i]->0).1))
            =~= res@);
    }
    Ok(res)
}

/// Relies on `core::str::from_utf8`: it succeeds exactly on byte sequences
/// that are valid UTF-8, and then yields the characters those bytes encode.
#[verifier::external_body]
fn utf8_to_string(bytes: &[u8]) -> (r: Option<String>)
    ensures
        r is Some <==> valid_utf8(bytes@),
        r matches Some(s) ==> s@ == decode_utf8(bytes@),
{
    match core::str::from_utf8(bytes) {
        Ok(s) => Some(s.to_owned()),
        Err(_) => None,
    }
}

/// The text of a fixed-width, possibly-unterminated buffer: everything
/// before the first zero octet, which must exist within bounds and must be
/// valid UTF-8.
pub open spec fn spec_str_from_buf(s: Seq<u8>) -> Result<Seq<char>, ElementErrorView> {
    let i = find_first(s, 0u8);
    if i < 0 {
        Err(ElementErrorView::StringParseError)
    } else if valid_utf8(s.take(i)) {
        Ok(decode_utf8(s.take(i)))
    } else {
        Err(ElementErrorView::Utf8Error("invalid utf-8"@))
    }
}

/// Decodes a fixed-width text buffer up to its terminator.
pub fn str_from_buf(buf: &[u8]) -> (r: Result<String, ElementError>)
    ensures
        match spec_str_from_buf(buf@) {
            Ok(cs) => r matches Ok(s) && s@ == cs,
            Err(ev) => r matches Err(e) && e@ == ev,
        },
{
    let n = buf.len();
    let mut i: usize = 0;
    while i < n
        invariant
            i <= n == buf@.len(),
            forall|k: int| 0 <= k < i ==> buf@[k] != 0u8,
        decreases n - i,
    {
        if buf[i] == 0 {
            proof {
                lemma_find_first_at(buf@, 0u8, i as int);
            }
            let prefix = slice_subrange(buf, 0, i);
            proof {
                assert(prefix@ =~= buf@.take(i as int));
            }
            return match utf8_to_string(prefix) {
                Some(s) => Ok(s),
                None => Err(ElementError::Utf8Error("invalid utf-8".to_owned())),
            };
        }
        i = i + 1;
    }
    proof {
        lemma_find_first_at(buf@, 0u8, n as int);
    }
    Err(ElementError::StringParseError)
}

/// Capacity of the engine's AS-path text buffer; rendered text whose length
/// reaches it has been truncated.
pub const AS_PATH_BUF_LEN: usize = 4096;

/// The decoded AS-path of a raw rendered path: the render must not have been
/// truncated, its bytes must be valid UTF-8, and the text must parse.
pub open spec fn spec_parse_as_path(path: RawPath) -> Result<
    Seq<PathEntryView>,
    ElementErrorView,
> {
    if path.written >= AS_PATH_BUF_LEN {
        Err(ElementErrorView::AsnParseError)
    } else if !valid_utf8(path.bytes@) {
        Err(ElementErrorView::Utf8Error("invalid utf-8"@))
    } else {
        match spec_as_path_from_str(decode_utf8(path.bytes@)) {
            Some(es) => Ok(es),
            None => Err(ElementErrorView::AsnParseError),
        }
    }
}

/// Decodes a raw rendered AS-path, rejecting truncation.
pub fn parse_as_path(path: &RawPath) -> (r: Result<Vec<PathEntry>, ElementError>)
    ensures
        match spec_parse_as_path(*path) {
            Ok(es) => r matches Ok(v) && v.deep_view() == es,
            Err(ev) => r matches Err(e) && e@ == ev,
        },
{
    if path.written >= AS_PATH_BUF_LEN {
        return Err(ElementError::AsnParseError);
    }
    match utf8_to_string(path.bytes.as_slice()) {
        None => Err(ElementError::Utf8Error("invalid utf-8".to_owned())),
        Some(s) => as_path_from_str(s.as_str()),
    }
}

/// The peer-session state an engine state code names; `None` for a code the
/// engine does not define.
pub open spec fn spec_peer_state(code: u32) -> Option<PeerState> {
    if code == 0 {
        Some(PeerState::Unknown)
    } else if code == 1 {
        Some(PeerState::Idle)
    } else if code == 2 {
        Some(PeerState::Connect)
    } else if code == 3 {
        Some(PeerState::Active)
    } else if code == 4 {
        Some(PeerState::OpenSent)
    } else if code == 5 {
        Some(PeerState::OpenConfirm)
    } else if code == 6 {
        Some(PeerState::Established)
    } else if code == 7 {
        Some(PeerState::Clearing)
    } else if code == 8 {
        Some(PeerState::Deleted)
    } else {
        None
    }
}

/// Maps an engine peer-state code to its named state.
pub fn peer_state_from_code(code: u32) -> (r: Option<PeerState>)
    ensures
        r == spec_peer_state(code),
{
    match code {
        0 => Some(PeerState::Unknown),
        1 => Some(PeerState::Idle),
        2 => Some(PeerState::Connect),
        3 => Some(PeerState::Active),
        4 => Some(PeerState::OpenSent),
        5 => Some(PeerState::OpenConfirm),
        6 => Some(PeerState::Established),
        7 => Some(PeerState::Clearing),
        8 => Some(PeerState::Deleted),
        _ => None,
    }
}

/// Shared decode of the announcement and RIB payloads: prefix, next hop,
/// AS-path, community set — all four required, the first failure wins.
pub open spec fn spec_announcement_data(elem: RawElement) -> Result<
    AnnouncementDataView,
    ElementErrorView,
> {
    match spec_parse_addr(elem.prefix.address) {
        None => Err(ElementErrorView::IpParseError(spec_addr_version_msg(elem.prefix.address.version))),
        Some(pa) => match spec_parse_addr(elem.nexthop) {
            None => Err(ElementErrorView::IpParseError(spec_addr_version_msg(elem.nexthop.version))),
            Some(nh) => match spec_parse_as_path(elem.aspath) {
                Err(e) => Err(e),
                Ok(path) => match spec_parse_communities(elem.communities@) {
                    None => Err(ElementErrorView::AsnParseError),
                    Some(cs) => Ok(
                        AnnouncementDataView {
                            prefix: Prefix { addr: pa, length: elem.prefix.mask_len },
                            next_hop: nh,
                            as_path: path,
                            communities: cs,
                        },
                    ),
                },
            },
        },
    }
}

fn announcement_data(elem: &RawElement) -> (r: Result<AnnouncementData, ElementError>)
    ensures
        match spec_announcement_data(*elem) {
            Ok(av) => r matches Ok(a) && a@ == av,
            Err(ev) => r matches Err(e) && e@ == ev,
        },
{
    let addr = match parse_addr(elem.prefix.address) {
        Ok(a) => a,
        Err(e) => {
            return Err(e);
        },
    };
    let next_hop = match parse_addr(elem.nexthop) {
        Ok(a) => a,
        Err(e) => {
            return Err(e);
        },
    };
    let as_path = match parse_as_path(&elem.aspath) {
        Ok(p) => p,
        Err(e) => {
            return Err(e);
        },
    };
    let communities = match parse_communities(&elem.communities) {
        Ok(c) => c,
        Err(e) => {
            return Err(e);
        },
    };
    Ok(
        AnnouncementData {
            prefix: Prefix { addr, length: elem.prefix.mask_len },
            next_hop,
            as_path,
            communities,
        },
    )
}

/// The payload a raw element's type tag calls for. The engine tags elements
/// 1 for a RIB entry, 2 for an announcement, 3 for a withdrawal and 4 for a
/// peer-state change; 0 is its explicit unknown tag, and every other value
/// is unrecognized.
pub open spec fn spec_element_data(elem: RawElement) -> Result<
    ElementDataView,
    ElementErrorView,
> {
    if elem.elem_type == 2 {
        match spec_announcement_data(elem) {
            Ok(a) => Ok(ElementDataView::Announcement(a)),
            Err(e) => Err(e),
        }
    } else if elem.elem_type == 1 {
        match spec_announcement_data(elem) {
            Ok(a) => Ok(ElementDataView::Rib(a)),
            Err(e) => Err(e),
        }
    } else if elem.elem_type == 3 {
        match spec_parse_addr(elem.prefix.address) {
            None => Err(ElementErrorView::IpParseError(spec_addr_version_msg(elem.prefix.address.version))),
            Some(pa) => Ok(
                ElementDataView::Withdrawl(
                    WithdrawlData {
                        prefix: Prefix { addr: pa, length: elem.prefix.mask_len },
                    },
                ),
            ),
        }
    } else if elem.elem_type == 4 {
        match spec_peer_state(elem.old_state) {
            None => Err(ElementErrorView::UnexpectedType),
            Some(o) => match spec_peer_state(elem.new_state) {
                None => Err(ElementErrorView::UnexpectedType),
                Some(nw) => Ok(
                    ElementDataView::PeerState(
                        PeerData { old_peer_state: o, new_peer_state: nw },
                    ),
                ),
            },
        }
    } else {
        Err(ElementErrorView::UnexpectedType)
    }
}

fn element_data(elem: &RawElement) -> (r: Result<ElementData, ElementError>)
    ensures
        match spec_element_data(*elem) {
            Ok(dv) => r matches Ok(d) && d@ == dv,
            Err(ev) => r matches Err(e) && e@ == ev,
        },
{
    if elem.elem_type == 2 {
        match announcement_data(elem) {
            Ok(a) => Ok(ElementData::Announcement(a)),
            Err(e) => Err(e),
        }
    } else if elem.elem_type == 1 {
        match announcement_data(elem) {
            Ok(a) => Ok(ElementData::Rib(a)),
            Err(e) => Err(e),
        }
    } else if elem.elem_type == 3 {
        match parse_addr(elem.prefix.address) {
            Err(e) => Err(e),
            Ok(pa) => Ok(
                ElementData::Withdrawl(
                    WithdrawlData {
                        prefix: Prefix { addr: pa, length: elem.prefix.mask_len },
                    },
                ),
            ),
        }
    } else if elem.elem_type == 4 {
        match peer_state_from_code(elem.old_state) {
            None => Err(ElementError::UnexpectedType),
            Some(o) => match peer_state_from_code(elem.new_state) {
                None => Err(ElementError::UnexpectedType),
                Some(nw) => Ok(
                    ElementData::PeerState(
                        PeerData { old_peer_state: o, new_peer_state: nw },
                    ),
                ),
            },
        }
    } else {
        Err(ElementError::UnexpectedType)
    }
}

/// The element a raw element and its parent record decode to: the payload
/// the type tag calls for, then the shared fields — peer address, collector,
/// project — in that order, the first failure winning.
pub open spec fn spec_create(elem: RawElement, record: RawRecord) -> Result<
    ElementView,
    ElementErrorView,
> {
    match spec_element_data(elem) {
        Err(e) => Err(e),
        Ok(data) => match spec_parse_addr(elem.peer_address) {
            None => Err(ElementErrorView::IpParseError(spec_addr_version_msg(elem.peer_address.version))),
            Some(pa) => match spec_str_from_buf(record.dump_collector@) {
                Err(e) => Err(e),
                Ok(coll) => match spec_str_from_buf(record.dump_project@) {
                    Err(e) => Err(e),
                    Ok(proj) => Ok(
                        ElementView {
                            timestamp: elem.timestamp as u64,
                            peer_addr: pa,
                            peer_asn: elem.peer_asnumber,
                            project: proj,
                            collector: coll,
                            data,
                        },
                    ),
                },
            },
        },
    }
}

impl Element {
    /// Decodes one raw element against its parent record, all-or-nothing: a
    /// fully owned element, or the first decode error.
    pub fn create(elem: &RawElement, record: &RawRecord) -> (r: Result<Element, ElementError>)
        ensures
            match spec_create(*elem, *record) {
                Ok(ev) => r matches Ok(e) && e@ == ev,
                Err(err) => r matches Err(e) && e@ == err,
            },
    {
        let data = match element_data(elem) {
            Ok(d) => d,
            Err(e) => {
                return Err(e);
            },
        };
        let peer_addr = match parse_addr(elem.peer_address) {
            Ok(a) => a,
            Err(e) => {
                return Err(e);
            },
        };
        let collector = match str_from_buf(record.dump_collector.as_slice()) {
            Ok(s) => s,
            Err(e) => {
                return Err(e);
            },
        };
        let project = match str_from_buf(record.dump_project.as_slice()) {
            Ok(s) => s,
            Err(e) => {
                return Err(e);
            },
        };
        Ok(
            Element {
                timestamp: elem.timestamp as u64,
                peer_addr,
                peer_asn: elem.peer_asnumber,
                project,
                collector,
                data,
            },
        )
    }
}

/// The payload variant always matches the element-type tag: a decode that
/// succeeds yields the payload its tag calls for, an unrecognized or
/// explicitly-unknown tag always fails with an unexpected-type error, and no
/// partial element exists in either case.
pub proof fn lemma_payload_matches_tag(elem: RawElement, record: RawRecord)
    ensures
        spec_create(elem, record) matches Ok(ev) ==> match ev.data {
            ElementDataView::Announcement(_) => elem.elem_type == 2,
            ElementDataView::Rib(_) => elem.elem_type == 1,
            ElementDataView::Withdrawl(_) => elem.elem_type == 3,
            ElementDataView::PeerState(_) => elem.elem_type == 4,
        },
        !(elem.elem_type == 1 || elem.elem_type == 2 || elem.elem_type == 3 || elem.elem_type
            == 4) ==> spec_create(elem, record) == Err::<ElementView, ElementErrorView>(
            ElementErrorView::UnexpectedType,
        ),
{
}

} // verus!
