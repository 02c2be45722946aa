//! SDP parsing per RFC 4566.
//!
//! A description is read line by line: each line is trimmed, lines that are not of the form
//! `<type>=<value>` are skipped, session-level fields fill the description until the first
//! `m=` line, and every line after an `m=` line belongs to that media description.
use crate::text::{
    find_char, find_from, is_ws, lower_seq, parse_uint, parse_uint_range, range_eq_lower, split_char,
    split_char_spans, split_ws, split_ws_spans, string_range, trim_bounds, trim_span, trimmed,
};
use vstd::prelude::*;

verus! {

/// The words of a field value.
pub open spec fn words_of(v: Seq<char>) -> Seq<Seq<char>> {
    split_ws(v)
}

/// The number `s` spells as an unsigned value no larger than `max`, or 0 when it spells none.
pub open spec fn uint_or_zero(s: Seq<char>, max: nat) -> nat {
    match parse_uint(s, max) {
        Some(n) => n,
        None => 0,
    }
}

/// The views of a list of strings.
pub open spec fn strings_view(v: Seq<String>) -> Seq<Seq<char>> {
    Seq::new(v.len(), |i: int| v[i]@)
}

/// SDP origin field.
#[derive(Debug, Clone)]
pub struct Origin {
    /// Username.
    pub username: String,
    /// Session ID.
    pub session_id: String,
    /// Session version.
    pub session_version: String,
    /// Network type (usually "IN").
    pub net_type: String,
    /// Address type (IP4 or IP6).
    pub addr_type: String,
    /// Unicast address.
    pub unicast_address: String,
}

impl View for Origin {
    type V = Seq<Seq<char>>;

    /// The six fields, in order.
    open spec fn view(&self) -> Seq<Seq<char>> {
        seq![
            self.username@,
            self.session_id@,
            self.session_version@,
            self.net_type@,
            self.addr_type@,
            self.unicast_address@,
        ]
    }
}

/// What an `o=` value gives: its first six words.
pub open spec fn origin_decode(v: Seq<char>) -> Result<Seq<Seq<char>>, SdpParseError> {
    if words_of(v).len() < 6 {
        Err(SdpParseError::InvalidOrigin)
    } else {
        Ok(words_of(v).take(6))
    }
}

/// Connection information.
#[derive(Debug, Clone)]
pub struct Connection {
    /// Network type (usually "IN").
    pub net_type: String,
    /// Address type (IP4 or IP6).
    pub addr_type: String,
    /// Connection address.
    pub address: String,
}

impl View for Connection {
    type V = Seq<Seq<char>>;

    /// The three fields, in order.
    open spec fn view(&self) -> Seq<Seq<char>> {
        seq![self.net_type@, self.addr_type@, self.address@]
    }
}

/// What a `c=` value gives: its first three words.
pub open spec fn connection_decode(v: Seq<char>) -> Result<Seq<Seq<char>>, SdpParseError> {
    if words_of(v).len() < 3 {
        Err(SdpParseError::InvalidConnection)
    } else {
        Ok(words_of(v).take(3))
    }
}

impl Connection {
    /// Get the IP address: the part of the address before any `/` (multicast TTL), if it
    /// is an IP address.
    pub fn ip_addr(&self) -> (r: Option<crate::net::IpAddr>)
        ensures
            r is Some <==> crate::net::parse_ip(split_char(self.address@, '/')[0]) is Some,
            r matches Some(ip) ==> crate::net::ip_view(ip) == crate::net::parse_ip(
                split_char(self.address@, '/')[0],
            )->0,
    {
        let cs = crate::text::chars_of(self.address.as_str());
        let sp = split_char_spans(cs.as_slice(), 0, cs.len(), '/');
        assert(cs@.subrange(0, cs@.len() as int) =~= self.address@);
        crate::net::parse_ip_range(cs.as_slice(), sp[0].0, sp[0].1)
    }
}

/// Timing information.
#[derive(Debug, Clone, Copy, PartialEq, Eq, Structural)]
pub struct Timing {
    /// Start time (0 for permanent session).
    pub start: u64,
    /// Stop time (0 for permanent session).
    pub stop: u64,
}

/// What a `t=` value gives: start and stop times, 0 where a word is not a number.
pub open spec fn timing_decode(v: Seq<char>) -> Result<Timing, SdpParseError> {
    if words_of(v).len() < 2 {
        Err(SdpParseError::InvalidTiming)
    } else {
        Ok(
            Timing {
                start: uint_or_zero(words_of(v)[0], u64::MAX as nat) as u64,
                stop: uint_or_zero(words_of(v)[1], u64::MAX as nat) as u64,
            },
        )
    }
}

/// Media type.
#[derive(Debug, Clone, Copy, PartialEq, Eq, Structural)]
pub enum MediaType {
    Audio,
    Video,
    Application,
    Message,
    Other,
}

/// The media type a word names, compared without regard to case. (No character outside ASCII
/// lower-cases to a letter of these names, so ASCII lower case is the full comparison.)
pub open spec fn media_type_of(w: Seq<char>) -> MediaType {
    if lower_seq(w) == "audio"@ {
        MediaType::Audio
    } else if lower_seq(w) == "video"@ {
        MediaType::Video
    } else if lower_seq(w) == "application"@ {
        MediaType::Application
    } else if lower_seq(w) == "message"@ {
        MediaType::Message
    } else {
        MediaType::Other
    }
}

impl MediaType {
    /// The media type named by `s[from..to]`.
    pub fn from_chars(s: &[char], from: usize, to: usize) -> (t: Self)
        requires
            from <= to <= s.len(),
        ensures
            t == media_type_of(s@.subrange(from as int, to as int)),
    {
        if range_eq_lower(s, from, to, "audio") {
            MediaType::Audio
        } else if range_eq_lower(s, from, to, "video") {
            MediaType::Video
        } else if range_eq_lower(s, from, to, "application") {
            MediaType::Application
        } else if range_eq_lower(s, from, to, "message") {
            MediaType::Message
        } else {
            MediaType::Other
        }
    }

    /// The media type named by `s`.
    pub fn from_name(s: &str) -> (t: Self)
        ensures
            t == media_type_of(s@),
    {
        let cs = crate::text::chars_of(s);
        assert(cs@.subrange(0, cs@.len() as int) =~= s@);
        Self::from_chars(cs.as_slice(), 0, cs.len())
    }
}

/// Media direction.
#[derive(Debug, Clone, Copy, PartialEq, Eq, Structural)]
pub enum Direction {
    /// Send and receive.
    SendRecv,
    /// Send only.
    SendOnly,
    /// Receive only.
    RecvOnly,
    /// Inactive.
    Inactive,
}

impl Default for Direction {
    fn default() -> (d: Self)
        ensures
            d == Direction::SendRecv,
    {
        Direction::SendRecv
    }
}

/// SDP attribute.
#[derive(Debug, Clone)]
pub struct Attribute {
    /// Attribute name.
    pub name: String,
    /// Attribute value (None for flag attributes like "sendrecv").
    pub value: Option<String>,
}

impl View for Attribute {
    type V = (Seq<char>, Option<Seq<char>>);

    open spec fn view(&self) -> (Seq<char>, Option<Seq<char>>) {
        (self.name@, match self.value {
            Some(v) => Some(v@),
            None => None,
        })
    }
}

/// What an `a=` value gives: the name before the first `:` and the value after it, or the
/// whole text as a flag.
pub open spec fn attribute_decode(v: Seq<char>) -> (Seq<char>, Option<Seq<char>>) {
    match find_from(v, ':', 0) {
        Some(k) => (v.subrange(0, k), Some(v.subrange(k + 1, v.len() as int))),
        None => (v, None),
    }
}

/// The views of a list of attributes.
pub open spec fn attributes_view(v: Seq<Attribute>) -> Seq<(Seq<char>, Option<Seq<char>>)> {
    Seq::new(v.len(), |i: int| v[i]@)
}

/// A bandwidth entry (`b=<type>:<kbps>`).
#[derive(Debug, Clone)]
pub struct Bandwidth {
    /// Bandwidth type, such as "AS" or "CT".
    pub bw_type: String,
    /// Bandwidth value.
    pub value: u32,
}

/// The views of a list of bandwidth entries.
pub open spec fn bandwidth_view(v: Seq<Bandwidth>) -> Seq<(Seq<char>, u32)> {
    Seq::new(v.len(), |i: int| (v[i].bw_type@, v[i].value))
}

/// The position of the entry for `key`, or -1.
pub open spec fn find_key(b: Seq<(Seq<char>, u32)>, key: Seq<char>) -> int
    decreases b.len(),
{
    if b.len() == 0 {
        -1
    } else if b.last().0 == key {
        b.len() - 1
    } else {
        find_key(b.drop_last(), key)
    }
}

/// The entries after setting `key` to `value`, as a map insert does: an entry present keeps
/// its place and takes the new value, a new one goes last.
pub open spec fn bandwidth_insert(b: Seq<(Seq<char>, u32)>, key: Seq<char>, value: u32) -> Seq<(Seq<char>, u32)> {
    if find_key(b, key) >= 0 {
        b.update(find_key(b, key), (key, value))
    } else {
        b.push((key, value))
    }
}

/// Media description.
#[derive(Debug, Clone)]
pub struct MediaDescription {
    /// Media type (audio, video, etc.).
    pub media_type: MediaType,
    /// Port number.
    pub port: u16,
    /// Number of ports (for RTP/RTCP pairs).
    pub num_ports: Option<u16>,
    /// Protocol (e.g., "RTP/AVP", "RTP/SAVP").
    pub protocol: String,
    /// Format list (payload types for RTP).
    pub formats: Vec<String>,
    /// Connection information (media-level).
    pub connection: Option<Connection>,
    /// Bandwidth entries, one per type.
    pub bandwidth: Vec<Bandwidth>,
    /// Attributes.
    pub attributes: Vec<Attribute>,
}

/// A media description as plain values.
pub struct MediaView {
    pub media_type: MediaType,
    pub port: u16,
    pub num_ports: Option<u16>,
    pub protocol: Seq<char>,
    pub formats: Seq<Seq<char>>,
    pub connection: Option<Seq<Seq<char>>>,
    pub bandwidth: Seq<(Seq<char>, u32)>,
    pub attributes: Seq<(Seq<char>, Option<Seq<char>>)>,
}

impl View for MediaDescription {
    type V = MediaView;

    open spec fn view(&self) -> MediaView {
        MediaView {
            media_type: self.media_type,
            port: self.port,
            num_ports: self.num_ports,
            protocol: self.protocol@,
            formats: strings_view(self.formats@),
            connection: match self.connection {
                Some(c) => Some(c@),
                None => None,
            },
            bandwidth: bandwidth_view(self.bandwidth@),
            attributes: attributes_view(self.attributes@),
        }
    }
}

/// The port and optional port count of an `m=` port word (`49170` or `49170/2`).
pub open spec fn media_port_decode(w: Seq<char>) -> Option<(u16, Option<u16>)> {
    match find_from(w, '/', 0) {
        Some(k) => match (parse_uint(w.subrange(0, k), 65535), parse_uint(w.subrange(k + 1, w.len() as int), 65535)) {
            (Some(p), Some(n)) => Some((p as u16, Some(n as u16))),
            _ => None,
        },
        None => match parse_uint(w, 65535) {
            Some(p) => Some((p as u16, None)),
            None => None,
        },
    }
}

/// What an `m=` value gives: type, port, protocol and formats, with no connection, bandwidth
/// or attributes yet.
pub open spec fn media_decode(v: Seq<char>) -> Result<MediaView, SdpParseError> {
    let w = words_of(v);
    if w.len() < 4 {
        Err(SdpParseError::InvalidMedia)
    } else {
        match media_port_decode(w[1]) {
            None => Err(SdpParseError::InvalidMedia),
            Some((port, num_ports)) => Ok(
                MediaView {
                    media_type: media_type_of(w[0]),
                    port,
                    num_ports,
                    protocol: w[2],
                    formats: w.subrange(3, w.len() as int),
                    connection: None,
                    bandwidth: Seq::empty(),
                    attributes: Seq::empty(),
                },
            ),
        }
    }
}

/// SDP session description.
#[derive(Debug, Clone)]
pub struct SessionDescription {
    /// Protocol version (always 0).
    pub version: u8,
    /// Origin/Session ID.
    pub origin: Origin,
    /// Session name.
    pub session_name: String,
    /// Session information (optional).
    pub session_info: Option<String>,
    /// Connection information (session-level).
    pub connection: Option<Connection>,
    /// Timing information.
    pub timing: Timing,
    /// Media descriptions.
    pub media: Vec<MediaDescription>,
    /// Session-level attributes.
    pub attributes: Vec<Attribute>,
}

/// The views of a list of media descriptions.
pub open spec fn media_list_view(v: Seq<MediaDescription>) -> Seq<MediaView> {
    Seq::new(v.len(), |i: int| v[i]@)
}

/// A session description as plain values.
pub struct SdpView {
    pub version: u8,
    pub origin: Seq<Seq<char>>,
    pub session_name: Seq<char>,
    pub session_info: Option<Seq<char>>,
    pub connection: Option<Seq<Seq<char>>>,
    pub timing: Timing,
    pub media: Seq<MediaView>,
    pub attributes: Seq<(Seq<char>, Option<Seq<char>>)>,
}

impl View for SessionDescription {
    type V = SdpView;

    open spec fn view(&self) -> SdpView {
        SdpView {
            version: self.version,
            origin: self.origin@,
            session_name: self.session_name@,
            session_info: match self.session_info {
                Some(v) => Some(v@),
                None => None,
            },
            connection: match self.connection {
                Some(c) => Some(c@),
                None => None,
            },
            timing: self.timing,
            media: media_list_view(self.media@),
            attributes: attributes_view(self.attributes@),
        }
    }
}

/// What has been read of a description after some lines.
pub struct SdpAcc {
    pub version: Option<u8>,
    pub origin: Option<Seq<Seq<char>>>,
    pub session_name: Option<Seq<char>>,
    pub session_info: Option<Seq<char>>,
    pub connection: Option<Seq<Seq<char>>>,
    pub timing: Option<Timing>,
    pub attributes: Seq<(Seq<char>, Option<Seq<char>>)>,
    pub media: Seq<MediaView>,
    pub current: Option<MediaView>,
}

/// Nothing read yet.
pub open spec fn sdp_acc_empty() -> SdpAcc {
    SdpAcc {
        version: None,
        origin: None,
        session_name: None,
        session_info: None,
        connection: None,
        timing: None,
        attributes: Seq::empty(),
        media: Seq::empty(),
        current: None,
    }
}

/// A line inside a media description: `c=`, `b=` and `a=` lines fill it, others are ignored.
pub open spec fn sdp_media_line(a: SdpAcc, m: MediaView, ty: char, v: Seq<char>) -> Result<SdpAcc, SdpParseError> {
    if ty == 'c' {
        match connection_decode(v) {
            Err(e) => Err(e),
            Ok(c) => Ok(SdpAcc { current: Some(MediaView { connection: Some(c), ..m }), ..a }),
        }
    } else if ty == 'b' {
        match find_from(v, ':', 0) {
            None => Ok(a),
            Some(k) => Ok(
                SdpAcc {
                    current: Some(
                        MediaView {
                            bandwidth: bandwidth_insert(
                                m.bandwidth,
                                v.subrange(0, k),
                                uint_or_zero(v.subrange(k + 1, v.len() as int), u32::MAX as nat) as u32,
                            ),
                            ..m
                        },
                    ),
                    ..a
                },
            ),
        }
    } else if ty == 'a' {
        Ok(SdpAcc { current: Some(MediaView { attributes: m.attributes.push(attribute_decode(v)), ..m }), ..a })
    } else {
        Ok(a)
    }
}

/// A session-level line.
pub open spec fn sdp_session_line(a: SdpAcc, ty: char, v: Seq<char>) -> Result<SdpAcc, SdpParseError> {
    if ty == 'v' {
        match parse_uint(v, 255) {
            None => Err(SdpParseError::InvalidVersion),
            Some(n) => Ok(SdpAcc { version: Some(n as u8), ..a }),
        }
    } else if ty == 'o' {
        match origin_decode(v) {
            Err(e) => Err(e),
            Ok(o) => Ok(SdpAcc { origin: Some(o), ..a }),
        }
    } else if ty == 's' {
        Ok(SdpAcc { session_name: Some(v), ..a })
    } else if ty == 'i' {
        Ok(SdpAcc { session_info: Some(v), ..a })
    } else if ty == 'c' {
        match connection_decode(v) {
            Err(e) => Err(e),
            Ok(c) => Ok(SdpAcc { connection: Some(c), ..a }),
        }
    } else if ty == 't' {
        match timing_decode(v) {
            Err(e) => Err(e),
            Ok(t) => Ok(SdpAcc { timing: Some(t), ..a }),
        }
    } else if ty == 'a' {
        Ok(SdpAcc { attributes: a.attributes.push(attribute_decode(v)), ..a })
    } else {
        Ok(a)
    }
}

/// Reading one trimmed line `t`.
pub open spec fn sdp_line_step(a: SdpAcc, t: Seq<char>) -> Result<SdpAcc, SdpParseError> {
    if t.len() < 2 || t[1] != '=' {
        Ok(a)
    } else {
        let ty = t[0];
        let v = t.subrange(2, t.len() as int);
        if ty == 'm' {
            match media_decode(v) {
                Err(e) => Err(e),
                Ok(m) => Ok(
                    SdpAcc {
                        media: match a.current {
                            Some(c) => a.media.push(c),
                            None => a.media,
                        },
                        current: Some(m),
                        ..a
                    },
                ),
            }
        } else {
            match a.current {
                Some(m) => sdp_media_line(a, m, ty, v),
                None => sdp_session_line(a, ty, v),
            }
        }
    }
}

/// Reading the lines `ls` in order.
pub open spec fn sdp_fold(ls: Seq<Seq<char>>) -> Result<SdpAcc, SdpParseError>
    decreases ls.len(),
{
    if ls.len() == 0 {
        Ok(sdp_acc_empty())
    } else {
        match sdp_fold(ls.drop_last()) {
            Err(e) => Err(e),
            Ok(a) => sdp_line_step(a, trimmed(ls.last())),
        }
    }
}

/// The description once every line is read.
pub open spec fn sdp_finish(a: SdpAcc) -> Result<SdpView, SdpParseError> {
    if a.version is None {
        Err(SdpParseError::MissingVersion)
    } else if a.origin is None {
        Err(SdpParseError::MissingOrigin)
    } else if a.timing is None {
        Err(SdpParseError::MissingTiming)
    } else {
        Ok(
            SdpView {
                version: a.version->0,
                origin: a.origin->0,
                session_name: match a.session_name {
                    Some(n) => n,
                    None => "-"@,
                },
                session_info: a.session_info,
                connection: a.connection,
                timing: a.timing->0,
                media: match a.current {
                    Some(c) => a.media.push(c),
                    None => a.media,
                },
                attributes: a.attributes,
            },
        )
    }
}

/// What parsing `s` gives.
pub open spec fn sdp_decode(s: Seq<char>) -> Result<SdpView, SdpParseError> {
    match sdp_fold(split_char(s, '\n')) {
        Err(e) => Err(e),
        Ok(a) => sdp_finish(a),
    }
}

/// SDP parse error.
#[derive(Debug, Clone, PartialEq, Eq, Structural)]
pub enum SdpParseError {
    MissingVersion,
    InvalidVersion,
    MissingOrigin,
    InvalidOrigin,
    InvalidConnection,
    MissingTiming,
    InvalidTiming,
    InvalidMedia,
}

/// The message of a parse error.
pub open spec fn sdp_error_text(e: SdpParseError) -> Seq<char> {
    match e {
        SdpParseError::MissingVersion => "Missing version"@,
        SdpParseError::InvalidVersion => "Invalid version"@,
        SdpParseError::MissingOrigin => "Missing origin"@,
        SdpParseError::InvalidOrigin => "Invalid origin"@,
        SdpParseError::InvalidConnection => "Invalid connection"@,
        SdpParseError::MissingTiming => "Missing timing"@,
        SdpParseError::InvalidTiming => "Invalid timing"@,
        SdpParseError::InvalidMedia => "Invalid media"@,
    }
}

impl SdpParseError {
    /// The error's message.
    pub fn to_text(&self) -> (s: String)
        ensures
            s@ == sdp_error_text(*self),
    {
        let t = match self {
            SdpParseError::MissingVersion => "Missing version",
            SdpParseError::InvalidVersion => "Invalid version",
            SdpParseError::MissingOrigin => "Missing origin",
            SdpParseError::InvalidOrigin => "Invalid origin",
            SdpParseError::InvalidConnection => "Invalid connection",
            SdpParseError::MissingTiming => "Missing timing",
            SdpParseError::InvalidTiming => "Invalid timing",
            SdpParseError::InvalidMedia => "Invalid media",
        };
        t.to_string()
    }
}

} // verus!

verus! {

/// The words of `v`, each as its own string.
fn words_spans(v: &[char]) -> (sp: Vec<(usize, usize)>)
    ensures
        sp@.len() == words_of(v@).len(),
        forall|k: int| 0 <= k < sp@.len() ==> #[trigger] sp@[k].0 <= sp@[k].1 <= v@.len(),
        forall|k: int| 0 <= k < sp@.len() ==> v@.subrange(#[trigger] sp@[k].0 as int, sp@[k].1 as int) == words_of(v@)[k],
{
    assert(v@.subrange(0, v@.len() as int) =~= v@);
    split_ws_spans(v, 0, v.len())
}

/// Parses an `o=` value.
fn parse_origin(v: &[char]) -> (r: Result<Origin, SdpParseError>)
    ensures
        match r {
            Ok(o) => origin_decode(v@) == Ok::<Seq<Seq<char>>, SdpParseError>(o@),
            Err(e) => origin_decode(v@) == Err::<Seq<Seq<char>>, SdpParseError>(e),
        },
{
    let sp = words_spans(v);
    if sp.len() < 6 {
        return Err(SdpParseError::InvalidOrigin);
    }
    let o = Origin {
        username: string_range(v, sp[0].0, sp[0].1),
        session_id: string_range(v, sp[1].0, sp[1].1),
        session_version: string_range(v, sp[2].0, sp[2].1),
        net_type: string_range(v, sp[3].0, sp[3].1),
        addr_type: string_range(v, sp[4].0, sp[4].1),
        unicast_address: string_range(v, sp[5].0, sp[5].1),
    };
    assert(o@ =~= words_of(v@).take(6));
    Ok(o)
}

/// Parses a `c=` value.
fn parse_connection(v: &[char]) -> (r: Result<Connection, SdpParseError>)
    ensures
        match r {
            Ok(c) => connection_decode(v@) == Ok::<Seq<Seq<char>>, SdpParseError>(c@),
            Err(e) => connection_decode(v@) == Err::<Seq<Seq<char>>, SdpParseError>(e),
        },
{
    let sp = words_spans(v);
    if sp.len() < 3 {
        return Err(SdpParseError::InvalidConnection);
    }
    let c = Connection {
        net_type: string_range(v, sp[0].0, sp[0].1),
        addr_type: string_range(v, sp[1].0, sp[1].1),
        address: string_range(v, sp[2].0, sp[2].1),
    };
    assert(c@ =~= words_of(v@).take(3));
    Ok(c)
}

/// Parses a `t=` value.
fn parse_timing(v: &[char]) -> (r: Result<Timing, SdpParseError>)
    ensures
        match r {
            Ok(t) => timing_decode(v@) == Ok::<Timing, SdpParseError>(t),
            Err(e) => timing_decode(v@) == Err::<Timing, SdpParseError>(e),
        },
{
    let sp = words_spans(v);
    if sp.len() < 2 {
        return Err(SdpParseError::InvalidTiming);
    }
    let start = match parse_uint_range(v, sp[0].0, sp[0].1, u64::MAX) {
        Some(n) => n,
        None => 0,
    };
    let stop = match parse_uint_range(v, sp[1].0, sp[1].1, u64::MAX) {
        Some(n) => n,
        None => 0,
    };
    Ok(Timing { start, stop })
}

/// Parses an `a=` value.
fn parse_attribute(v: &[char]) -> (a: Attribute)
    ensures
        a@ == attribute_decode(v@),
{
    assert(v@.subrange(0, v@.len() as int) =~= v@);
    match find_char(v, 0, v.len(), ':') {
        Some(k) => Attribute { name: string_range(v, 0, k), value: Some(string_range(v, k + 1, v.len())) },
        None => Attribute { name: string_range(v, 0, v.len()), value: None },
    }
}

/// Parses the port word of an `m=` value.
fn parse_media_port(w: &[char]) -> (r: Option<(u16, Option<u16>)>)
    ensures
        r == media_port_decode(w@),
{
    assert(w@.subrange(0, w@.len() as int) =~= w@);
    match find_char(w, 0, w.len(), '/') {
        Some(k) => {
            let p = parse_uint_range(w, 0, k, 65535);
            let n = parse_uint_range(w, k + 1, w.len(), 65535);
            match (p, n) {
                (Some(p), Some(n)) => Some((p as u16, Some(n as u16))),
                _ => None,
            }
        },
        None => match parse_uint_range(w, 0, w.len(), 65535) {
            Some(p) => Some((p as u16, None)),
            None => None,
        },
    }
}

/// Parses an `m=` value.
fn parse_media(v: &[char]) -> (r: Result<MediaDescription, SdpParseError>)
    ensures
        match r {
            Ok(m) => media_decode(v@) == Ok::<MediaView, SdpParseError>(m@),
            Err(e) => media_decode(v@) == Err::<MediaView, SdpParseError>(e),
        },
{
    let ghost w = words_of(v@);
    let sp = words_spans(v);
    if sp.len() < 4 {
        return Err(SdpParseError::InvalidMedia);
    }
    let media_type = MediaType::from_chars(v, sp[0].0, sp[0].1);
    let port_word = crate::text::copy_chars(v, sp[1].0, sp[1].1);
    let (port, num_ports) = match parse_media_port(port_word.as_slice()) {
        Some(x) => x,
        None => return Err(SdpParseError::InvalidMedia),
    };
    let protocol = string_range(v, sp[2].0, sp[2].1);
    let mut formats: Vec<String> = Vec::new();
    let mut k: usize = 3;
    while k < sp.len()
        invariant
            3 <= k <= sp@.len(),
            sp@.len() == w.len(),
            forall|j: int| 0 <= j < sp@.len() ==> #[trigger] sp@[j].0 <= sp@[j].1 <= v@.len(),
            forall|j: int| 0 <= j < sp@.len() ==> v@.subrange(#[trigger] sp@[j].0 as int, sp@[j].1 as int) == w[j],
            strings_view(formats@) == w.subrange(3, k as int),
        decreases sp.len() - k,
    {
        let f = string_range(v, sp[k].0, sp[k].1);
        assert(f@ == w[k as int]);
        let ghost before = formats@;
        assert(strings_view(before).len() == before.len());
        assert(before.len() == k - 3);
        formats.push(f);
        assert(formats@[k - 3]@ == w[k as int]);
        assert forall|j: int| 0 <= j < k - 3 implies formats@[j] == before[j] by {}
        assert(strings_view(formats@) =~= w.subrange(3, k + 1));
        k += 1;
    }
    let m = MediaDescription {
        media_type,
        port,
        num_ports,
        protocol,
        formats,
        connection: None,
        bandwidth: Vec::new(),
        attributes: Vec::new(),
    };
    assert(bandwidth_view(m.bandwidth@) =~= Seq::<(Seq<char>, u32)>::empty());
    assert(attributes_view(m.attributes@) =~= Seq::<(Seq<char>, Option<Seq<char>>)>::empty());
    Ok(m)
}

/// Sets the bandwidth of type `key` to `value`.
fn insert_bandwidth(b: &mut Vec<Bandwidth>, key: String, value: u32)
    ensures
        bandwidth_view(final(b)@) == bandwidth_insert(bandwidth_view(old(b)@), key@, value),
{
    let ghost s = bandwidth_view(b@);
    let mut i = b.len();
    assert(s.take(s.len() as int) =~= s);
    while i > 0
        invariant
            i <= b@.len(),
            b@ == old(b)@,
            s == bandwidth_view(b@),
            find_key(s, key@) == find_key(s.take(i as int), key@),
        decreases i,
    {
        let ghost t = s.take(i as int);
        assert(t.drop_last() =~= s.take(i - 1));
        if b[i - 1].bw_type == key {
            assert(find_key(s, key@) == i - 1);
            assert(bandwidth_insert(s, key@, value) == s.update(i - 1, (key@, value)));
            let ghost kv = key@;
            b.set(i - 1, Bandwidth { bw_type: key, value });
            assert(bandwidth_view(b@) =~= s.update(i - 1, (kv, value)));
            assert(bandwidth_view(b@) == bandwidth_insert(bandwidth_view(old(b)@), kv, value));
            return;
        }
        i -= 1;
    }
    b.push(Bandwidth { bw_type: key, value });
    assert(bandwidth_view(b@) =~= s.push((key@, value)));
}

/// What has been read of a description so far.
struct ParseState {
    version: Option<u8>,
    origin: Option<Origin>,
    session_name: Option<String>,
    session_info: Option<String>,
    connection: Option<Connection>,
    timing: Option<Timing>,
    attributes: Vec<Attribute>,
    media: Vec<MediaDescription>,
    current: Option<MediaDescription>,
}

impl View for ParseState {
    type V = SdpAcc;

    closed spec fn view(&self) -> SdpAcc {
        SdpAcc {
            version: self.version,
            origin: match self.origin {
                Some(o) => Some(o@),
                None => None,
            },
            session_name: match self.session_name {
                Some(n) => Some(n@),
                None => None,
            },
            session_info: match self.session_info {
                Some(n) => Some(n@),
                None => None,
            },
            connection: match self.connection {
                Some(c) => Some(c@),
                None => None,
            },
            timing: self.timing,
            attributes: attributes_view(self.attributes@),
            media: media_list_view(self.media@),
            current: match self.current {
                Some(m) => Some(m@),
                None => None,
            },
        }
    }
}

impl ParseState {
    fn new() -> (s: Self)
        ensures
            s@ == sdp_acc_empty(),
    {
        let s = ParseState {
            version: None,
            origin: None,
            session_name: None,
            session_info: None,
            connection: None,
            timing: None,
            attributes: Vec::new(),
            media: Vec::new(),
            current: None,
        };
        assert(s@.attributes =~= Seq::<(Seq<char>, Option<Seq<char>>)>::empty());
        assert(s@.media =~= Seq::<MediaView>::empty());
        s
    }

    /// Reads a line inside a media description.
    fn media_line(&mut self, ty: char, v: &[char]) -> (r: Result<(), SdpParseError>)
        requires
            old(self)@.current is Some,
        ensures
            match sdp_media_line(old(self)@, old(self)@.current->0, ty, v@) {
                Ok(a) => r is Ok && final(self)@ == a,
                Err(e) => r == Err::<(), SdpParseError>(e),
            },
    {
        let ghost a = self@;
        let ghost mv = a.current->0;
        let mut m = match self.current.take() {
            Some(m) => m,
            None => return Ok(()),
        };
        assert(m@ == mv);
        if ty == 'c' {
            match parse_connection(v) {
                Ok(c) => {
                    m.connection = Some(c);
                },
                Err(e) => {
                    return Err(e);
                },
            }
        } else if ty == 'b' {
            assert(v@.subrange(0, v@.len() as int) =~= v@);
            match find_char(v, 0, v.len(), ':') {
                Some(k) => {
                    let key = string_range(v, 0, k);
                    let bw = match parse_uint_range(v, k + 1, v.len(), u32::MAX as u64) {
                        Some(n) => n as u32,
                        None => 0,
                    };
                    insert_bandwidth(&mut m.bandwidth, key, bw);
                },
                None => {},
            }
        } else if ty == 'a' {
            let at = parse_attribute(v);
            m.attributes.push(at);
            assert(attributes_view(m.attributes@) =~= mv.attributes.push(attribute_decode(v@)));
        }
        self.current = Some(m);
        assert(self@ == (match sdp_media_line(a, mv, ty, v@) {
            Ok(x) => x,
            Err(_) => a,
        }));
        Ok(())
    }

    /// Reads a session-level line.
    fn session_line(&mut self, ty: char, v: &[char]) -> (r: Result<(), SdpParseError>)
        ensures
            match sdp_session_line(old(self)@, ty, v@) {
                Ok(a) => r is Ok && final(self)@ == a,
                Err(e) => r == Err::<(), SdpParseError>(e),
            },
    {
        let ghost a = self@;
        if ty == 'v' {
            assert(v@.subrange(0, v@.len() as int) =~= v@);
            match parse_uint_range(v, 0, v.len(), 255) {
                Some(n) => {
                    self.version = Some(n as u8);
                },
                None => return Err(SdpParseError::InvalidVersion),
            }
        } else if ty == 'o' {
            match parse_origin(v) {
                Ok(o) => {
                    self.origin = Some(o);
                },
                Err(e) => return Err(e),
            }
        } else if ty == 's' {
            self.session_name = Some(string_range_all(v));
        } else if ty == 'i' {
            self.session_info = Some(string_range_all(v));
        } else if ty == 'c' {
            match parse_connection(v) {
                Ok(c) => {
                    self.connection = Some(c);
                },
                Err(e) => return Err(e),
            }
        } else if ty == 't' {
            match parse_timing(v) {
                Ok(t) => {
                    self.timing = Some(t);
                },
                Err(e) => return Err(e),
            }
        } else if ty == 'a' {
            let at = parse_attribute(v);
            self.attributes.push(at);
            assert(attributes_view(self.attributes@) =~= a.attributes.push(attribute_decode(v@)));
        }
        Ok(())
    }

    /// Reads one trimmed line.
    fn step(&mut self, t: &[char]) -> (r: Result<(), SdpParseError>)
        ensures
            match sdp_line_step(old(self)@, t@) {
                Ok(a) => r is Ok && final(self)@ == a,
                Err(e) => r == Err::<(), SdpParseError>(e),
            },
    {
        if t.len() < 2 || t[1] != '=' {
            return Ok(());
        }
        let ty = t[0];
        let v = crate::text::copy_chars(t, 2, t.len());
        if ty == 'm' {
            let m = match parse_media(v.as_slice()) {
                Ok(m) => m,
                Err(e) => return Err(e),
            };
            let ghost a = self@;
            match self.current.take() {
                Some(cur) => {
                    self.media.push(cur);
                    assert(media_list_view(self.media@) =~= a.media.push(a.current->0));
                },
                None => {},
            }
            self.current = Some(m);
            return Ok(());
        }
        if self.current.is_some() {
            self.media_line(ty, v.as_slice())
        } else {
            self.session_line(ty, v.as_slice())
        }
    }

    /// The description, once every line is read.
    fn finish(self) -> (r: Result<SessionDescription, SdpParseError>)
        ensures
            match r {
                Ok(d) => sdp_finish(self@) == Ok::<SdpView, SdpParseError>(d@),
                Err(e) => sdp_finish(self@) == Err::<SdpView, SdpParseError>(e),
            },
    {
        let ghost a = self@;
        let ParseState {
            version,
            origin,
            session_name,
            session_info,
            connection,
            timing,
            attributes,
            mut media,
            current,
        } = self;
        match current {
            Some(m) => {
                media.push(m);
                assert(media_list_view(media@) =~= a.media.push(a.current->0));
            },
            None => {},
        }
        let version = match version {
            Some(v) => v,
            None => return Err(SdpParseError::MissingVersion),
        };
        let origin = match origin {
            Some(o) => o,
            None => return Err(SdpParseError::MissingOrigin),
        };
        let timing = match timing {
            Some(t) => t,
            None => return Err(SdpParseError::MissingTiming),
        };
        let session_name = match session_name {
            Some(n) => n,
            None => "-".to_string(),
        };
        let d = SessionDescription {
            version,
            origin,
            session_name,
            session_info,
            connection,
            timing,
            media,
            attributes,
        };
        Ok(d)
    }
}

/// The string spelled by all of `v`.
fn string_range_all(v: &[char]) -> (s: String)
    ensures
        s@ == v@,
{
    assert(v@.subrange(0, v@.len() as int) =~= v@);
    string_range(v, 0, v.len())
}

impl SessionDescription {
    /// Parse SDP from string.
    pub fn parse(sdp: &str) -> (r: Result<Self, SdpParseError>)
        ensures
            match r {
                Ok(d) => sdp_decode(sdp@) == Ok::<SdpView, SdpParseError>(d@),
                Err(e) => sdp_decode(sdp@) == Err::<SdpView, SdpParseError>(e),
            },
    {
        let c = crate::text::chars_of(sdp);
        let n = c.len();
        let ghost ls = split_char(sdp@, '\n');
        assert(c@.subrange(0, n as int) =~= sdp@);
        let lines = split_char_spans(c.as_slice(), 0, n, '\n');
        let mut st = ParseState::new();
        let mut k: usize = 0;
        assert(ls.take(0) =~= Seq::<Seq<char>>::empty());
        while k < lines.len()
            invariant
                k <= lines@.len(),
                lines@.len() == ls.len(),
                c@ == sdp@,
                ls == split_char(sdp@, '\n'),
                forall|j: int| 0 <= j < lines@.len() ==> #[trigger] lines@[j].0 <= lines@[j].1 <= c@.len(),
                forall|j: int| 0 <= j < lines@.len() ==> c@.subrange(#[trigger] lines@[j].0 as int, lines@[j].1 as int) == ls[j],
                sdp_fold(ls.take(k as int)) == Ok::<SdpAcc, SdpParseError>(st@),
            decreases lines.len() - k,
        {
            let piece = crate::text::copy_chars(c.as_slice(), lines[k].0, lines[k].1);
            assert(piece@ == ls[k as int]);
            let (x, y) = trim_span(piece.as_slice(), 0, piece.len());
            let t = crate::text::copy_chars(piece.as_slice(), x, y);
            assert(t@ == trimmed(ls[k as int]));
            assert(ls.take(k + 1).drop_last() =~= ls.take(k as int));
            assert(ls.take(k + 1).last() == ls[k as int]);
            match st.step(t.as_slice()) {
                Ok(()) => {},
                Err(e) => {
                    proof {
                        lemma_sdp_fold_err(ls, (k + 1) as int, e);
                    }
                    return Err(e);
                },
            }
            k += 1;
        }
        assert(ls.take(ls.len() as int) =~= ls);
        st.finish()
    }

    /// Get the first audio media description.
    pub fn audio_media(&self) -> (r: Option<&MediaDescription>)
        ensures
            match first_audio(media_list_view(self.media@)) {
                Some(i) => r matches Some(m) && *m == self.media@[i],
                None => r is None,
            },
    {
        match self.audio_index() {
            Some(i) => {
                let m = &self.media[i];
                assert(*m == self.media@[i as int]);
                Some(m)
            },
            None => None,
        }
    }

    /// The position of the first audio media description.
    pub fn audio_index(&self) -> (r: Option<usize>)
        ensures
            r matches Some(k) ==> first_audio(media_list_view(self.media@)) == Some(k as int) && k
                < self.media@.len(),
            r is None ==> first_audio(media_list_view(self.media@)) is None,
    {
        let ghost s = media_list_view(self.media@);
        proof {
            lemma_first_audio(s, 0);
        }
        let mut i: usize = 0;
        while i < self.media.len()
            invariant
                i <= self.media@.len(),
                s == media_list_view(self.media@),
                first_audio(s) == first_audio_from(s, i as int),
            decreases self.media.len() - i,
        {
            if self.media[i].media_type == MediaType::Audio {
                return Some(i);
            }
            i += 1;
        }
        None
    }

    /// Get audio media mutably.
    pub fn audio_media_mut(&mut self) -> (r: Option<&mut MediaDescription>)
        ensures
            match first_audio(media_list_view(old(self).media@)) {
                Some(i) => r matches Some(m) && *m == old(self).media@[i] && final(self).media@
                    == old(self).media@.update(i, *final(m)),
                None => r is None,
            },
    {
        match self.audio_index() {
            Some(i) => Some(&mut self.media[i]),
            None => None,
        }
    }
}

/// The first audio media description at or after `i`.
pub open spec fn first_audio_from(s: Seq<MediaView>, i: int) -> Option<int>
    decreases s.len() - i,
{
    if i < 0 || i >= s.len() {
        None
    } else if s[i].media_type == MediaType::Audio {
        Some(i)
    } else {
        first_audio_from(s, i + 1)
    }
}

/// The position of the first audio media description.
pub open spec fn first_audio(s: Seq<MediaView>) -> Option<int> {
    first_audio_from(s, 0)
}

/// The first audio description found is an audio description of the list.
proof fn lemma_first_audio(s: Seq<MediaView>, i: int)
    requires
        0 <= i,
    ensures
        first_audio_from(s, i) matches Some(j) ==> i <= j < s.len() && s[j].media_type == MediaType::Audio,
    decreases s.len() - i,
{
    if i < s.len() && s[i].media_type != MediaType::Audio {
        lemma_first_audio(s, i + 1);
    }
}

/// Once a line fails, reading more lines keeps the failure.
proof fn lemma_sdp_fold_err(ls: Seq<Seq<char>>, k: int, e: SdpParseError)
    requires
        0 <= k <= ls.len(),
        sdp_fold(ls.take(k)) == Err::<SdpAcc, SdpParseError>(e),
    ensures
        sdp_fold(ls) == Err::<SdpAcc, SdpParseError>(e),
    decreases ls.len() - k,
{
    if k < ls.len() {
        assert(ls.take(k + 1).drop_last() =~= ls.take(k));
        lemma_sdp_fold_err(ls, k + 1, e);
    } else {
        assert(ls.take(k) =~= ls);
    }
}

} // verus!

verus! {

/// The direction named by an attribute name, if it names one.
pub open spec fn direction_of(name: Seq<char>) -> Option<Direction> {
    if name == "sendrecv"@ {
        Some(Direction::SendRecv)
    } else if name == "sendonly"@ {
        Some(Direction::SendOnly)
    } else if name == "recvonly"@ {
        Some(Direction::RecvOnly)
    } else if name == "inactive"@ {
        Some(Direction::Inactive)
    } else {
        None
    }
}

/// The direction of the first direction attribute at or after `i`; send-and-receive when there
/// is none (RFC 3264).
pub open spec fn direction_from(attrs: Seq<(Seq<char>, Option<Seq<char>>)>, i: int) -> Direction
    decreases attrs.len() - i,
{
    if i < 0 || i >= attrs.len() {
        Direction::SendRecv
    } else {
        match direction_of(attrs[i].0) {
            Some(d) => d,
            None => direction_from(attrs, i + 1),
        }
    }
}

/// RTP map attribute (a=rtpmap:96 opus/48000/2).
#[derive(Debug, Clone)]
pub struct RtpMap {
    /// Payload type.
    pub payload_type: u8,
    /// Encoding name.
    pub encoding: String,
    /// Clock rate.
    pub clock_rate: u32,
    /// Encoding parameters (channels for audio).
    pub params: Option<String>,
}

/// An RTP map as plain values.
pub struct RtpMapView {
    pub payload_type: u8,
    pub encoding: Seq<char>,
    pub clock_rate: u32,
    pub params: Option<Seq<char>>,
}

impl View for RtpMap {
    type V = RtpMapView;

    open spec fn view(&self) -> RtpMapView {
        RtpMapView {
            payload_type: self.payload_type,
            encoding: self.encoding@,
            clock_rate: self.clock_rate,
            params: match self.params {
                Some(p) => Some(p@),
                None => None,
            },
        }
    }
}

/// What an `rtpmap` value gives: payload type, then after a space the `/`-separated encoding
/// name, clock rate (8000 when absent or not a number) and parameters.
pub open spec fn rtpmap_decode(v: Seq<char>) -> Option<RtpMapView> {
    match find_from(v, ' ', 0) {
        None => None,
        Some(k) => match parse_uint(v.subrange(0, k), 255) {
            None => None,
            Some(pt) => {
                let parts = split_char(v.subrange(k + 1, v.len() as int), '/');
                Some(
                    RtpMapView {
                        payload_type: pt as u8,
                        encoding: parts[0],
                        clock_rate: if parts.len() > 1 {
                            match parse_uint(parts[1], u32::MAX as nat) {
                                Some(r) => r as u32,
                                None => 8000,
                            }
                        } else {
                            8000
                        },
                        params: if parts.len() > 2 { Some(parts[2]) } else { None },
                    },
                )
            },
        },
    }
}

/// The RTP maps of a list of attributes, in order, skipping those that do not parse.
pub open spec fn rtpmaps_of(attrs: Seq<(Seq<char>, Option<Seq<char>>)>) -> Seq<RtpMapView>
    decreases attrs.len(),
{
    if attrs.len() == 0 {
        Seq::empty()
    } else {
        let prev = rtpmaps_of(attrs.drop_last());
        let a = attrs.last();
        if a.0 == "rtpmap"@ && a.1 is Some && rtpmap_decode(a.1->0) is Some {
            prev.push(rtpmap_decode(a.1->0)->0)
        } else {
            prev
        }
    }
}

/// The views of a list of RTP maps.
pub open spec fn rtpmaps_view(v: Seq<RtpMap>) -> Seq<RtpMapView> {
    Seq::new(v.len(), |i: int| v[i]@)
}

/// Format-specific parameters (a=fmtp:96 mode-set=0,2,4).
#[derive(Debug, Clone)]
pub struct Fmtp {
    /// Payload type.
    pub payload_type: u8,
    /// Parameters string.
    pub params: String,
}

/// What an `fmtp` value gives: the payload type, and the parameters after the first space.
pub open spec fn fmtp_decode(v: Seq<char>) -> Option<(u8, Seq<char>)> {
    match find_from(v, ' ', 0) {
        None => None,
        Some(k) => match parse_uint(v.subrange(0, k), 255) {
            None => None,
            Some(pt) => Some((pt as u8, v.subrange(k + 1, v.len() as int))),
        },
    }
}

/// The format parameters of a list of attributes, in order, skipping those that do not parse.
pub open spec fn fmtps_of(attrs: Seq<(Seq<char>, Option<Seq<char>>)>) -> Seq<(u8, Seq<char>)>
    decreases attrs.len(),
{
    if attrs.len() == 0 {
        Seq::empty()
    } else {
        let prev = fmtps_of(attrs.drop_last());
        let a = attrs.last();
        if a.0 == "fmtp"@ && a.1 is Some && fmtp_decode(a.1->0) is Some {
            prev.push(fmtp_decode(a.1->0)->0)
        } else {
            prev
        }
    }
}

/// The views of a list of format parameters.
pub open spec fn fmtps_view(v: Seq<Fmtp>) -> Seq<(u8, Seq<char>)> {
    Seq::new(v.len(), |i: int| (v[i].payload_type, v[i].params@))
}

impl RtpMap {
    /// Parse an `rtpmap` attribute value.
    pub fn parse(v: &[char]) -> (r: Option<Self>)
        ensures
            match rtpmap_decode(v@) {
                Some(m) => r matches Some(x) && x@ == m,
                None => r is None,
            },
    {
        assert(v@.subrange(0, v@.len() as int) =~= v@);
        let k = match find_char(v, 0, v.len(), ' ') {
            Some(k) => k,
            None => return None,
        };
        let pt = match parse_uint_range(v, 0, k, 255) {
            Some(p) => p as u8,
            None => return None,
        };
        let parts = split_char_spans(v, k + 1, v.len(), '/');
        let encoding = string_range(v, parts[0].0, parts[0].1);
        let clock_rate: u32 = if parts.len() > 1 {
            match parse_uint_range(v, parts[1].0, parts[1].1, u32::MAX as u64) {
                Some(r) => r as u32,
                None => 8000,
            }
        } else {
            8000
        };
        let params = if parts.len() > 2 {
            Some(string_range(v, parts[2].0, parts[2].1))
        } else {
            None
        };
        Some(RtpMap { payload_type: pt, encoding, clock_rate, params })
    }

    /// Get the number of channels: the parameters as a number, 1 when absent or not a number.
    pub fn channels(&self) -> (c: u8)
        ensures
            c == (match self.params {
                Some(p) => match parse_uint(p@, 255) {
                    Some(n) => n as u8,
                    None => 1u8,
                },
                None => 1u8,
            }),
    {
        match &self.params {
            Some(p) => {
                let cs = crate::text::chars_of(p.as_str());
                assert(cs@.subrange(0, cs@.len() as int) =~= p@);
                match parse_uint_range(cs.as_slice(), 0, cs.len(), 255) {
                    Some(n) => n as u8,
                    None => 1,
                }
            },
            None => 1,
        }
    }
}

impl Fmtp {
    /// Parse an `fmtp` attribute value.
    pub fn parse(v: &[char]) -> (r: Option<Self>)
        ensures
            match fmtp_decode(v@) {
                Some((pt, params)) => r matches Some(x) && x.payload_type == pt && x.params@ == params,
                None => r is None,
            },
    {
        assert(v@.subrange(0, v@.len() as int) =~= v@);
        let k = match find_char(v, 0, v.len(), ' ') {
            Some(k) => k,
            None => return None,
        };
        let pt = match parse_uint_range(v, 0, k, 255) {
            Some(p) => p as u8,
            None => return None,
        };
        Some(Fmtp { payload_type: pt, params: string_range(v, k + 1, v.len()) })
    }
}

impl MediaDescription {
    /// Get the direction attribute.
    pub fn direction(&self) -> (d: Direction)
        ensures
            d == direction_from(attributes_view(self.attributes@), 0),
    {
        let ghost s = attributes_view(self.attributes@);
        let mut i: usize = 0;
        while i < self.attributes.len()
            invariant
                i <= self.attributes@.len(),
                s == attributes_view(self.attributes@),
                direction_from(s, 0) == direction_from(s, i as int),
            decreases self.attributes.len() - i,
        {
            let name = self.attributes[i].name.as_str();
            assert(name@ == s[i as int].0);
            let cs = crate::text::chars_of(name);
            assert(cs@.subrange(0, cs@.len() as int) =~= name@);
            let n = cs.len();
            if crate::text::range_is(cs.as_slice(), 0, n, "sendrecv") {
                return Direction::SendRecv;
            } else if crate::text::range_is(cs.as_slice(), 0, n, "sendonly") {
                return Direction::SendOnly;
            } else if crate::text::range_is(cs.as_slice(), 0, n, "recvonly") {
                return Direction::RecvOnly;
            } else if crate::text::range_is(cs.as_slice(), 0, n, "inactive") {
                return Direction::Inactive;
            }
            i += 1;
        }
        Direction::SendRecv
    }

    /// Get rtpmap attributes.
    pub fn rtpmaps(&self) -> (v: Vec<RtpMap>)
        ensures
            rtpmaps_view(v@) == rtpmaps_of(attributes_view(self.attributes@)),
    {
        let ghost s = attributes_view(self.attributes@);
        let mut out: Vec<RtpMap> = Vec::new();
        let mut i: usize = 0;
        assert(s.take(0) =~= Seq::<(Seq<char>, Option<Seq<char>>)>::empty());
        while i < self.attributes.len()
            invariant
                i <= self.attributes@.len(),
                s == attributes_view(self.attributes@),
                rtpmaps_view(out@) == rtpmaps_of(s.take(i as int)),
            decreases self.attributes.len() - i,
        {
            let ghost t = s.take(i + 1);
            assert(t.drop_last() =~= s.take(i as int));
            assert(t.last() == s[i as int]);
            let a = &self.attributes[i];
            let is_rtpmap = string_is(&a.name, "rtpmap");
            if is_rtpmap {
                match &a.value {
                    Some(val) => {
                        let cs = crate::text::chars_of(val.as_str());
                        match RtpMap::parse(cs.as_slice()) {
                            Some(m) => {
                                let ghost before = out@;
                                out.push(m);
                                assert(rtpmaps_view(out@) =~= rtpmaps_view(before).push(m@));
                            },
                            None => {},
                        }
                    },
                    None => {},
                }
            }
            i += 1;
        }
        assert(s.take(s.len() as int) =~= s);
        out
    }

    /// Get fmtp attributes.
    pub fn fmtps(&self) -> (v: Vec<Fmtp>)
        ensures
            fmtps_view(v@) == fmtps_of(attributes_view(self.attributes@)),
    {
        let ghost s = attributes_view(self.attributes@);
        let mut out: Vec<Fmtp> = Vec::new();
        let mut i: usize = 0;
        assert(s.take(0) =~= Seq::<(Seq<char>, Option<Seq<char>>)>::empty());
        while i < self.attributes.len()
            invariant
                i <= self.attributes@.len(),
                s == attributes_view(self.attributes@),
                fmtps_view(out@) == fmtps_of(s.take(i as int)),
            decreases self.attributes.len() - i,
        {
            let ghost t = s.take(i + 1);
            assert(t.drop_last() =~= s.take(i as int));
            assert(t.last() == s[i as int]);
            let a = &self.attributes[i];
            let is_fmtp = string_is(&a.name, "fmtp");
            if is_fmtp {
                match &a.value {
                    Some(val) => {
                        let cs = crate::text::chars_of(val.as_str());
                        match Fmtp::parse(cs.as_slice()) {
                            Some(f) => {
                                let ghost before = out@;
                                out.push(f);
                                assert(fmtps_view(out@) =~= fmtps_view(before).push((f.payload_type, f.params@)));
                            },
                            None => {},
                        }
                    },
                    None => {},
                }
            }
            i += 1;
        }
        assert(s.take(s.len() as int) =~= s);
        out
    }

    /// Check if port is 0 (rejected/disabled media).
    pub fn is_rejected(&self) -> (b: bool)
        ensures
            b == (self.port == 0),
    {
        self.port == 0
    }
}

/// Whether `s` spells `w`.
fn string_is(s: &String, w: &str) -> (b: bool)
    ensures
        b == (s@ == w@),
{
    let cs = crate::text::chars_of(s.as_str());
    assert(cs@.subrange(0, cs@.len() as int) =~= s@);
    crate::text::range_is(cs.as_slice(), 0, cs.len(), w)
}

} // verus!

verus! {

/// Whether an attribute name is one of the four direction attributes of RFC 4566 Section 6.
pub open spec fn names_direction(name: Seq<char>) -> bool {
    name == "sendrecv"@ || name == "sendonly"@ || name == "recvonly"@ || name == "inactive"@
}

/// Attributes that name no direction are passed over.
proof fn lemma_direction_skip(attrs: Seq<(Seq<char>, Option<Seq<char>>)>, i: int, k: int)
    requires
        0 <= i <= k <= attrs.len(),
        forall|j: int| 0 <= j < k ==> !names_direction(#[trigger] attrs[j].0),
    ensures
        direction_from(attrs, i) == direction_from(attrs, k),
    decreases k - i,
{
    if i < k {
        assert(!names_direction(attrs[i].0));
        assert(direction_of(attrs[i].0) is None);
        lemma_direction_skip(attrs, i + 1, k);
    }
}

/// The direction of a media section (RFC 4566 Section 6, RFC 3264 Section 5.1): the first
/// attribute named `sendrecv`, `sendonly`, `recvonly` or `inactive` decides it, as
/// send-and-receive, send only, receive only or inactive; attributes with other names do not
/// count, and with no such attribute the section sends and receives.
pub proof fn lemma_first_direction_attribute(attrs: Seq<(Seq<char>, Option<Seq<char>>)>, k: int)
    requires
        0 <= k <= attrs.len(),
        k < attrs.len() ==> names_direction(attrs[k].0),
        forall|j: int| 0 <= j < k ==> !names_direction(#[trigger] attrs[j].0),
    ensures
        k == attrs.len() ==> direction_from(attrs, 0) == Direction::SendRecv,
        k < attrs.len() && attrs[k].0 == "sendrecv"@ ==> direction_from(attrs, 0) == Direction::SendRecv,
        k < attrs.len() && attrs[k].0 == "sendonly"@ ==> direction_from(attrs, 0) == Direction::SendOnly,
        k < attrs.len() && attrs[k].0 == "recvonly"@ ==> direction_from(attrs, 0) == Direction::RecvOnly,
        k < attrs.len() && attrs[k].0 == "inactive"@ ==> direction_from(attrs, 0) == Direction::Inactive,
{
    reveal_strlit("sendrecv");
    reveal_strlit("sendonly");
    reveal_strlit("recvonly");
    reveal_strlit("inactive");
    assert("sendrecv"@[4] == 'r' && "sendonly"@[4] == 'o' && "recvonly"@[0] == 'r' && "inactive"@[0] == 'i');
    assert("sendrecv"@[0] == 's' && "sendonly"@[0] == 's');
    lemma_direction_skip(attrs, 0, k);
}

} // verus!
