//! SDP builder, and the text form of a session description.
use crate::net::IpAddr;
use crate::sdp::parser::{
    direction_from, lemma_first_direction_attribute, names_direction,
    attributes_view, bandwidth_view, media_list_view, strings_view, Attribute, Connection, Direction,
    MediaDescription, MediaType, MediaView, Origin, SdpView, SessionDescription, Timing,
};
use crate::text::{dec, push_chars, push_dec, push_str, string_of};
use vstd::prelude::*;

verus! {

/// Builder for media descriptions.
#[derive(Debug, Clone)]
pub struct MediaBuilder {
    media_type: MediaType,
    port: u16,
    protocol: String,
    formats: Vec<String>,
    direction: Direction,
    /// (payload type, encoding, clock rate, channels)
    rtpmaps: Vec<(u8, String, u32, Option<u8>)>,
    /// (payload type, parameters)
    fmtps: Vec<(u8, String)>,
    ptime: Option<u32>,
}

/// A media builder as plain values.
pub struct MediaBuilderView {
    pub media_type: MediaType,
    pub port: u16,
    pub protocol: Seq<char>,
    pub formats: Seq<Seq<char>>,
    pub direction: Direction,
    pub rtpmaps: Seq<(u8, Seq<char>, u32, Option<u8>)>,
    pub fmtps: Seq<(u8, Seq<char>)>,
    pub ptime: Option<u32>,
}

impl View for MediaBuilder {
    type V = MediaBuilderView;

    closed spec fn view(&self) -> MediaBuilderView {
        MediaBuilderView {
            media_type: self.media_type,
            port: self.port,
            protocol: self.protocol@,
            formats: strings_view(self.formats@),
            direction: self.direction,
            rtpmaps: Seq::new(
                self.rtpmaps@.len(),
                |i: int| (self.rtpmaps@[i].0, self.rtpmaps@[i].1@, self.rtpmaps@[i].2, self.rtpmaps@[i].3),
            ),
            fmtps: Seq::new(self.fmtps@.len(), |i: int| (self.fmtps@[i].0, self.fmtps@[i].1@)),
            ptime: self.ptime,
        }
    }
}

/// The value of an `rtpmap` attribute: `<pt> <encoding>/<rate>[/<channels>]`.
pub open spec fn rtpmap_text(m: (u8, Seq<char>, u32, Option<u8>)) -> Seq<char> {
    dec(m.0 as nat) + seq![' '] + m.1 + seq!['/'] + dec(m.2 as nat) + match m.3 {
        Some(ch) => seq!['/'] + dec(ch as nat),
        None => Seq::empty(),
    }
}

/// The value of an `fmtp` attribute: `<pt> <params>`.
pub open spec fn fmtp_text(f: (u8, Seq<char>)) -> Seq<char> {
    dec(f.0 as nat) + seq![' '] + f.1
}

/// The name of a direction attribute.
pub open spec fn direction_name(d: Direction) -> Seq<char> {
    match d {
        Direction::SendRecv => "sendrecv"@,
        Direction::SendOnly => "sendonly"@,
        Direction::RecvOnly => "recvonly"@,
        Direction::Inactive => "inactive"@,
    }
}

/// The attributes a media builder produces: its RTP maps, then format parameters, then
/// packet time, then the direction.
pub open spec fn media_builder_attributes(b: MediaBuilderView) -> Seq<(Seq<char>, Option<Seq<char>>)> {
    Seq::new(b.rtpmaps.len(), |i: int| ("rtpmap"@, Some(rtpmap_text(b.rtpmaps[i])))) + Seq::new(
        b.fmtps.len(),
        |i: int| ("fmtp"@, Some(fmtp_text(b.fmtps[i]))),
    ) + match b.ptime {
        Some(p) => seq![("ptime"@, Some(dec(p as nat)))],
        None => Seq::empty(),
    } + seq![(direction_name(b.direction), None::<Seq<char>>)]
}

impl MediaBuilder {
    /// Create an audio media builder.
    pub fn audio(port: u16) -> (b: Self)
        ensures
            b@ == (MediaBuilderView {
                media_type: MediaType::Audio,
                port,
                protocol: "RTP/AVP"@,
                formats: Seq::empty(),
                direction: Direction::SendRecv,
                rtpmaps: Seq::empty(),
                fmtps: Seq::empty(),
                ptime: None,
            }),
    {
        let b = MediaBuilder {
            media_type: MediaType::Audio,
            port,
            protocol: "RTP/AVP".to_string(),
            formats: Vec::new(),
            direction: Direction::SendRecv,
            rtpmaps: Vec::new(),
            fmtps: Vec::new(),
            ptime: None,
        };
        assert(b@.formats =~= Seq::<Seq<char>>::empty());
        assert(b@.rtpmaps =~= Seq::<(u8, Seq<char>, u32, Option<u8>)>::empty());
        assert(b@.fmtps =~= Seq::<(u8, Seq<char>)>::empty());
        b
    }

    /// Set the protocol (e.g., "RTP/SAVP" for SRTP).
    pub fn protocol(self, protocol: &str) -> (b: Self)
        ensures
            b@ == (MediaBuilderView { protocol: protocol@, ..self@ }),
    {
        let mut s = self;
        s.protocol = protocol.to_string();
        s
    }

    /// Set the direction.
    pub fn direction(self, direction: Direction) -> (b: Self)
        ensures
            b@ == (MediaBuilderView { direction, ..self@ }),
    {
        let mut s = self;
        s.direction = direction;
        s
    }

    /// Adds a format and its RTP map.
    fn add_format(self, pt: u8, encoding: String, clock_rate: u32, channels: Option<u8>) -> (b: Self)
        ensures
            b@ == (MediaBuilderView {
                formats: self@.formats.push(dec(pt as nat)),
                rtpmaps: self@.rtpmaps.push((pt, encoding@, clock_rate, channels)),
                ..self@
            }),
    {
        let mut s = self;
        let ghost f0 = s@.formats;
        let ghost r0 = s@.rtpmaps;
        s.formats.push(crate::text::dec_string(pt as u64));
        s.rtpmaps.push((pt, encoding, clock_rate, channels));
        assert(s@.formats =~= f0.push(dec(pt as nat)));
        assert(s@.rtpmaps =~= r0.push((pt, encoding@, clock_rate, channels)));
        s
    }

    /// Adds format parameters.
    fn add_fmtp(self, pt: u8, params: String) -> (b: Self)
        ensures
            b@ == (MediaBuilderView { fmtps: self@.fmtps.push((pt, params@)), ..self@ }),
    {
        let mut s = self;
        let ghost f0 = s@.fmtps;
        s.fmtps.push((pt, params));
        assert(s@.fmtps =~= f0.push((pt, params@)));
        s
    }

    /// Add PCMU (G.711 mu-law) codec.
    pub fn pcmu(self) -> (b: Self)
        ensures
            b@ == (MediaBuilderView {
                formats: self@.formats.push("0"@),
                rtpmaps: self@.rtpmaps.push((0u8, "PCMU"@, 8000u32, None::<u8>)),
                ..self@
            }),
    {
        proof {
            reveal_strlit("0");
            assert(dec(0nat) =~= "0"@);
        }
        self.add_format(0, "PCMU".to_string(), 8000, None)
    }

    /// Add PCMA (G.711 A-law) codec.
    pub fn pcma(self) -> (b: Self)
        ensures
            b@ == (MediaBuilderView {
                formats: self@.formats.push("8"@),
                rtpmaps: self@.rtpmaps.push((8u8, "PCMA"@, 8000u32, None::<u8>)),
                ..self@
            }),
    {
        proof {
            reveal_strlit("8");
            assert(dec(8nat) =~= "8"@);
        }
        self.add_format(8, "PCMA".to_string(), 8000, None)
    }

    /// Add G722 codec (its SDP clock rate is 8000).
    pub fn g722(self) -> (b: Self)
        ensures
            b@ == (MediaBuilderView {
                formats: self@.formats.push("9"@),
                rtpmaps: self@.rtpmaps.push((9u8, "G722"@, 8000u32, None::<u8>)),
                ..self@
            }),
    {
        proof {
            reveal_strlit("9");
            assert(dec(9nat) =~= "9"@);
        }
        self.add_format(9, "G722".to_string(), 8000, None)
    }

    /// Add telephone-event (DTMF), with events 0-16.
    pub fn telephone_event(self, pt: u8) -> (b: Self)
        ensures
            b@ == (MediaBuilderView {
                formats: self@.formats.push(dec(pt as nat)),
                rtpmaps: self@.rtpmaps.push((pt, "telephone-event"@, 8000u32, None::<u8>)),
                fmtps: self@.fmtps.push((pt, "0-16"@)),
                ..self@
            }),
    {
        self.add_format(pt, "telephone-event".to_string(), 8000, None).add_fmtp(pt, "0-16".to_string())
    }

    /// Add a dynamic codec.
    pub fn codec(self, pt: u8, encoding: &str, clock_rate: u32, channels: Option<u8>) -> (b: Self)
        ensures
            b@ == (MediaBuilderView {
                formats: self@.formats.push(dec(pt as nat)),
                rtpmaps: self@.rtpmaps.push((pt, encoding@, clock_rate, channels)),
                ..self@
            }),
    {
        self.add_format(pt, encoding.to_string(), clock_rate, channels)
    }

    /// Add format-specific parameters.
    pub fn fmtp(self, pt: u8, params: &str) -> (b: Self)
        ensures
            b@ == (MediaBuilderView { fmtps: self@.fmtps.push((pt, params@)), ..self@ }),
    {
        self.add_fmtp(pt, params.to_string())
    }

    /// Set ptime.
    pub fn ptime(self, ptime: u32) -> (b: Self)
        ensures
            b@ == (MediaBuilderView { ptime: Some(ptime), ..self@ }),
    {
        let mut s = self;
        s.ptime = Some(ptime);
        s
    }

    /// Build the media description.
    pub fn build(self) -> (m: MediaDescription)
        ensures
            m@ == (MediaView {
                media_type: self@.media_type,
                port: self@.port,
                num_ports: None,
                protocol: self@.protocol,
                formats: self@.formats,
                connection: None,
                bandwidth: Seq::empty(),
                attributes: media_builder_attributes(self@),
            }),
    {
        let ghost b = self@;
        let mut attributes: Vec<Attribute> = Vec::new();
        let mut i: usize = 0;
        while i < self.rtpmaps.len()
            invariant
                i <= self.rtpmaps@.len(),
                b == self@,
                attributes_view(attributes@) == Seq::new(
                    i as nat,
                    |k: int| ("rtpmap"@, Some(rtpmap_text(b.rtpmaps[k]))),
                ),
            decreases self.rtpmaps.len() - i,
        {
            let (pt, encoding, rate, channels) = (
                self.rtpmaps[i].0,
                &self.rtpmaps[i].1,
                self.rtpmaps[i].2,
                self.rtpmaps[i].3,
            );
            let mut v: Vec<char> = Vec::new();
            push_dec(&mut v, pt as u64);
            v.push(' ');
            push_str(&mut v, encoding.as_str());
            v.push('/');
            push_dec(&mut v, rate as u64);
            match channels {
                Some(ch) => {
                    v.push('/');
                    push_dec(&mut v, ch as u64);
                },
                None => {},
            }
            assert(v@ =~= rtpmap_text(b.rtpmaps[i as int]));
            let ghost before = attributes_view(attributes@);
            attributes.push(Attribute { name: "rtpmap".to_string(), value: Some(string_of(v.as_slice())) });
            assert(attributes_view(attributes@) =~= before.push(("rtpmap"@, Some(rtpmap_text(b.rtpmaps[i as int])))));
            assert(attributes_view(attributes@) =~= Seq::new(
                (i + 1) as nat,
                |k: int| ("rtpmap"@, Some(rtpmap_text(b.rtpmaps[k]))),
            ));
            i += 1;
        }
        let ghost with_maps = attributes_view(attributes@);
        let mut j: usize = 0;
        while j < self.fmtps.len()
            invariant
                j <= self.fmtps@.len(),
                b == self@,
                attributes_view(attributes@) == with_maps + Seq::new(
                    j as nat,
                    |k: int| ("fmtp"@, Some(fmtp_text(b.fmtps[k]))),
                ),
            decreases self.fmtps.len() - j,
        {
            let mut v: Vec<char> = Vec::new();
            push_dec(&mut v, self.fmtps[j].0 as u64);
            v.push(' ');
            push_str(&mut v, self.fmtps[j].1.as_str());
            assert(v@ =~= fmtp_text(b.fmtps[j as int]));
            let ghost before = attributes_view(attributes@);
            attributes.push(Attribute { name: "fmtp".to_string(), value: Some(string_of(v.as_slice())) });
            assert(attributes_view(attributes@) =~= before.push(("fmtp"@, Some(fmtp_text(b.fmtps[j as int])))));
            assert(attributes_view(attributes@) =~= with_maps + Seq::new(
                (j + 1) as nat,
                |k: int| ("fmtp"@, Some(fmtp_text(b.fmtps[k]))),
            ));
            j += 1;
        }
        let ghost with_fmtps = attributes_view(attributes@);
        match self.ptime {
            Some(p) => {
                attributes.push(Attribute { name: "ptime".to_string(), value: Some(crate::text::dec_string(p as u64)) });
                assert(attributes_view(attributes@) =~= with_fmtps.push(("ptime"@, Some(dec(p as nat)))));
            },
            None => {},
        }
        let ghost with_ptime = attributes_view(attributes@);
        let name = match self.direction {
            Direction::SendRecv => "sendrecv".to_string(),
            Direction::SendOnly => "sendonly".to_string(),
            Direction::RecvOnly => "recvonly".to_string(),
            Direction::Inactive => "inactive".to_string(),
        };
        attributes.push(Attribute { name, value: None });
        assert(attributes_view(attributes@) =~= with_ptime.push((direction_name(b.direction), None::<Seq<char>>)));
        assert(attributes_view(attributes@) =~= media_builder_attributes(b));
        let m = MediaDescription {
            media_type: self.media_type,
            port: self.port,
            num_ports: None,
            protocol: self.protocol,
            formats: self.formats,
            connection: None,
            bandwidth: Vec::new(),
            attributes,
        };
        assert(bandwidth_view(m.bandwidth@) =~= Seq::<(Seq<char>, u32)>::empty());
        m
    }
}

/// Builder for SDP session descriptions.
#[derive(Debug, Clone)]
pub struct SdpBuilder {
    /// Origin username.
    username: String,
    /// Session ID.
    session_id: u64,
    /// Session version.
    session_version: u64,
    /// Local IP address.
    local_addr: IpAddr,
    /// Session name.
    session_name: String,
    /// Media descriptions.
    media: Vec<MediaBuilder>,
}

/// An SDP builder as plain values.
pub struct SdpBuilderView {
    pub username: Seq<char>,
    pub session_id: u64,
    pub session_version: u64,
    pub local_addr: IpAddr,
    pub session_name: Seq<char>,
    pub media: Seq<MediaBuilderView>,
}

impl View for SdpBuilder {
    type V = SdpBuilderView;

    closed spec fn view(&self) -> SdpBuilderView {
        SdpBuilderView {
            username: self.username@,
            session_id: self.session_id,
            session_version: self.session_version,
            local_addr: self.local_addr,
            session_name: self.session_name@,
            media: Seq::new(self.media@.len(), |i: int| self.media@[i]@),
        }
    }
}

/// The address type word for an address.
pub open spec fn addr_type_of(a: IpAddr) -> Seq<char> {
    if a is V4 { "IP4"@ } else { "IP6"@ }
}

/// The media description a media builder builds.
pub open spec fn media_built(b: MediaBuilderView) -> MediaView {
    MediaView {
        media_type: b.media_type,
        port: b.port,
        num_ports: None,
        protocol: b.protocol,
        formats: b.formats,
        connection: None,
        bandwidth: Seq::empty(),
        attributes: media_builder_attributes(b),
    }
}

/// The description an SDP builder builds: version 0, an origin and a connection for the
/// local address, permanent timing, and the media its builders build.
pub open spec fn sdp_built(b: SdpBuilderView) -> SdpView {
    SdpView {
        version: 0,
        origin: seq![
            b.username,
            dec(b.session_id as nat),
            dec(b.session_version as nat),
            "IN"@,
            addr_type_of(b.local_addr),
            b.local_addr.text(),
        ],
        session_name: b.session_name,
        session_info: None,
        connection: Some(seq!["IN"@, addr_type_of(b.local_addr), b.local_addr.text()]),
        timing: Timing { start: 0, stop: 0 },
        media: Seq::new(b.media.len(), |i: int| media_built(b.media[i])),
        attributes: Seq::empty(),
    }
}

impl SdpBuilder {
    /// An SDP builder for `local_addr` with the given session ID.
    pub fn with_session(local_addr: IpAddr, session_id: u64) -> (b: Self)
        ensures
            b@ == (SdpBuilderView {
                username: "-"@,
                session_id,
                session_version: 1,
                local_addr,
                session_name: "-"@,
                media: Seq::empty(),
            }),
    {
        let b = SdpBuilder {
            username: "-".to_string(),
            session_id,
            session_version: 1,
            local_addr,
            session_name: "-".to_string(),
            media: Vec::new(),
        };
        assert(b@.media =~= Seq::<MediaBuilderView>::empty());
        b
    }

    /// Create a new SDP builder, with a random session ID.
    pub fn new(local_addr: IpAddr) -> (b: Self)
        ensures
            b@.username == "-"@,
            b@.session_version == 1,
            b@.local_addr == local_addr,
            b@.session_name == "-"@,
            b@.media == Seq::<MediaBuilderView>::empty(),
    {
        Self::with_session(local_addr, crate::random::random_u64())
    }

    /// Set the username.
    pub fn username(self, username: &str) -> (b: Self)
        ensures
            b@ == (SdpBuilderView { username: username@, ..self@ }),
    {
        let mut s = self;
        s.username = username.to_string();
        s
    }

    /// Set the session ID.
    pub fn session_id(self, id: u64) -> (b: Self)
        ensures
            b@ == (SdpBuilderView { session_id: id, ..self@ }),
    {
        let mut s = self;
        s.session_id = id;
        s
    }

    /// Set the session version.
    pub fn session_version(self, version: u64) -> (b: Self)
        ensures
            b@ == (SdpBuilderView { session_version: version, ..self@ }),
    {
        let mut s = self;
        s.session_version = version;
        s
    }

    /// Set the session name.
    pub fn session_name(self, name: &str) -> (b: Self)
        ensures
            b@ == (SdpBuilderView { session_name: name@, ..self@ }),
    {
        let mut s = self;
        s.session_name = name.to_string();
        s
    }

    /// Add an audio media description.
    pub fn audio(self, port: u16) -> (b: Self)
        ensures
            b@ == (SdpBuilderView { media: self@.media.push(MediaBuilder::audio_view(port)), ..self@ }),
    {
        self.add_media(MediaBuilder::audio(port))
    }

    /// Add a media builder.
    pub fn add_media(self, media: MediaBuilder) -> (b: Self)
        ensures
            b@ == (SdpBuilderView { media: self@.media.push(media@), ..self@ }),
    {
        let mut s = self;
        let ghost m0 = s@.media;
        s.media.push(media);
        assert(s@.media =~= m0.push(media@));
        s
    }

    /// Build the SDP.
    pub fn build(self) -> (d: SessionDescription)
        ensures
            d@ == sdp_built(self@),
    {
        let ghost b = self@;
        let addr_type = if self.local_addr.is_ipv4() { "IP4" } else { "IP6" };
        let origin = Origin {
            username: self.username,
            session_id: crate::text::dec_string(self.session_id),
            session_version: crate::text::dec_string(self.session_version),
            net_type: "IN".to_string(),
            addr_type: addr_type.to_string(),
            unicast_address: self.local_addr.to_text(),
        };
        let connection = Connection {
            net_type: "IN".to_string(),
            addr_type: addr_type.to_string(),
            address: self.local_addr.to_text(),
        };
        let mut media: Vec<MediaDescription> = Vec::new();
        let mut builders = self.media;
        let ghost bs = builders@;
        let ghost n = bs.len();
        assert(n == builders.len());
        let mut i: usize = 0;
        while builders.len() > 0
            invariant
                n <= usize::MAX,
                i + builders@.len() == n,
                n == bs.len(),
                builders@ == bs.subrange(i as int, n as int),
                b.media == Seq::new(n, |k: int| bs[k]@),
                media_list_view(media@) == Seq::new(i as nat, |k: int| media_built(b.media[k])),
            decreases builders.len(),
        {
            let mb = builders.remove(0);
            assert(mb == bs[i as int]);
            let m = mb.build();
            let ghost before = media_list_view(media@);
            media.push(m);
            assert(media_list_view(media@) =~= before.push(media_built(b.media[i as int])));
            assert(media_list_view(media@) =~= Seq::new((i + 1) as nat, |k: int| media_built(b.media[k])));
            assert(builders@ =~= bs.subrange(i + 1, n as int));
            i += 1;
        }
        let d = SessionDescription {
            version: 0,
            origin,
            session_name: self.session_name,
            session_info: None,
            connection: Some(connection),
            timing: Timing { start: 0, stop: 0 },
            media,
            attributes: Vec::new(),
        };
        assert(attributes_view(d.attributes@) =~= Seq::<(Seq<char>, Option<Seq<char>>)>::empty());
        d
    }

    /// Build and render to text.
    pub fn build_string(self) -> (s: String)
        ensures
            s@ == sdp_text(sdp_built(self@)),
    {
        let d = self.build();
        d.to_sdp_string()
    }
}

impl MediaBuilder {
    /// The view of a fresh audio builder on `port`.
    pub open spec fn audio_view(port: u16) -> MediaBuilderView {
        MediaBuilderView {
            media_type: MediaType::Audio,
            port,
            protocol: "RTP/AVP"@,
            formats: Seq::empty(),
            direction: Direction::SendRecv,
            rtpmaps: Seq::empty(),
            fmtps: Seq::empty(),
            ptime: None,
        }
    }
}

/// The words of a list joined by single spaces.
pub open spec fn join_words(w: Seq<Seq<char>>) -> Seq<char>
    decreases w.len(),
{
    if w.len() == 0 {
        Seq::empty()
    } else if w.len() == 1 {
        w[0]
    } else {
        join_words(w.drop_last()) + seq![' '] + w.last()
    }
}

/// Each word preceded by a space.
pub open spec fn spaced_words(w: Seq<Seq<char>>) -> Seq<char>
    decreases w.len(),
{
    if w.len() == 0 {
        Seq::empty()
    } else {
        spaced_words(w.drop_last()) + seq![' '] + w.last()
    }
}

/// The line of an attribute: `a=<name>[:<value>]`.
pub open spec fn attribute_line(a: (Seq<char>, Option<Seq<char>>)) -> Seq<char> {
    "a="@ + a.0 + match a.1 {
        Some(v) => seq![':'] + v,
        None => Seq::empty(),
    } + seq!['\n']
}

/// The lines of a list of attributes.
pub open spec fn attribute_lines(s: Seq<(Seq<char>, Option<Seq<char>>)>) -> Seq<char>
    decreases s.len(),
{
    if s.len() == 0 {
        Seq::empty()
    } else {
        attribute_lines(s.drop_last()) + attribute_line(s.last())
    }
}

/// The line of a connection: `c=<net> <addr type> <address>`.
pub open spec fn connection_line(c: Seq<Seq<char>>) -> Seq<char> {
    "c="@ + join_words(c) + seq!['\n']
}

/// The lines of bandwidth entries: `b=<type>:<value>`.
pub open spec fn bandwidth_lines(s: Seq<(Seq<char>, u32)>) -> Seq<char>
    decreases s.len(),
{
    if s.len() == 0 {
        Seq::empty()
    } else {
        bandwidth_lines(s.drop_last()) + "b="@ + s.last().0 + seq![':'] + dec(s.last().1 as nat) + seq!['\n']
    }
}

/// The word a media type is written as.
pub open spec fn media_type_name(t: MediaType) -> Seq<char> {
    match t {
        MediaType::Audio => "audio"@,
        MediaType::Video => "video"@,
        MediaType::Application => "application"@,
        MediaType::Message => "message"@,
        MediaType::Other => "other"@,
    }
}

/// The lines of a media description.
pub open spec fn media_text(m: MediaView) -> Seq<char> {
    "m="@ + media_type_name(m.media_type) + seq![' '] + dec(m.port as nat) + seq![' '] + m.protocol
        + spaced_words(m.formats) + seq!['\n'] + match m.connection {
        Some(c) => connection_line(c),
        None => Seq::empty(),
    } + bandwidth_lines(m.bandwidth) + attribute_lines(m.attributes)
}

/// The lines of a list of media descriptions.
pub open spec fn media_texts(s: Seq<MediaView>) -> Seq<char>
    decreases s.len(),
{
    if s.len() == 0 {
        Seq::empty()
    } else {
        media_texts(s.drop_last()) + media_text(s.last())
    }
}

/// The session-level lines up to the timing line.
pub open spec fn head_text(
    version: u8,
    origin: Seq<Seq<char>>,
    name: Seq<char>,
    info: Option<Seq<char>>,
    conn: Option<Seq<Seq<char>>>,
    timing: Timing,
) -> Seq<char> {
    "v="@ + dec(version as nat) + seq!['\n'] + "o="@ + join_words(origin) + seq!['\n'] + "s="@ + name
        + seq!['\n'] + match info {
        Some(i) => "i="@ + i + seq!['\n'],
        None => Seq::empty(),
    } + match conn {
        Some(c) => connection_line(c),
        None => Seq::empty(),
    } + "t="@ + dec(timing.start as nat) + seq![' '] + dec(timing.stop as nat) + seq!['\n']
}

/// The session-level lines of a description, up to its timing line.
pub open spec fn sdp_head(d: SdpView) -> Seq<char> {
    head_text(d.version, d.origin, d.session_name, d.session_info, d.connection, d.timing)
}

/// The text of a session description.
pub open spec fn sdp_text(d: SdpView) -> Seq<char> {
    sdp_head(d) + attribute_lines(d.attributes) + media_texts(d.media)
}

/// Appends the words joined by single spaces.
fn push_joined(v: &mut Vec<char>, w: &[&String])
    ensures
        final(v)@ == old(v)@ + join_words(Seq::new(w@.len(), |i: int| w@[i]@)),
{
    let ghost ws = Seq::new(w@.len(), |i: int| w@[i]@);
    let ghost start = v@;
    let mut i: usize = 0;
    while i < w.len()
        invariant
            i <= w@.len(),
            ws == Seq::new(w@.len(), |i: int| w@[i]@),
            v@ == start + join_words(ws.take(i as int)),
        decreases w.len() - i,
    {
        let ghost t = ws.take(i + 1);
        assert(t.drop_last() =~= ws.take(i as int));
        if i > 0 {
            v.push(' ');
        }
        push_str(v, w[i].as_str());
        proof {
            if i == 0 {
                assert(t.len() == 1);
            }
        }
        assert(v@ =~= start + join_words(ws.take(i + 1)));
        i += 1;
    }
    assert(ws.take(w@.len() as int) =~= ws);
}

/// Appends the lines of a list of attributes.
fn push_attribute_lines(v: &mut Vec<char>, attrs: &Vec<Attribute>)
    ensures
        final(v)@ == old(v)@ + attribute_lines(attributes_view(attrs@)),
{
    let ghost s = attributes_view(attrs@);
    let ghost start = v@;
    let mut i: usize = 0;
    while i < attrs.len()
        invariant
            i <= attrs@.len(),
            s == attributes_view(attrs@),
            v@ == start + attribute_lines(s.take(i as int)),
        decreases attrs.len() - i,
    {
        let ghost t = s.take(i + 1);
        assert(t.drop_last() =~= s.take(i as int));
        push_str(v, "a=");
        push_str(v, attrs[i].name.as_str());
        match &attrs[i].value {
            Some(val) => {
                v.push(':');
                push_str(v, val.as_str());
            },
            None => {},
        }
        v.push('\n');
        assert(v@ =~= start + attribute_lines(s.take(i + 1)));
        i += 1;
    }
    assert(s.take(attrs@.len() as int) =~= s);
}

/// Appends a connection line.
fn push_connection_line(v: &mut Vec<char>, c: &Connection)
    ensures
        final(v)@ == old(v)@ + connection_line(c@),
{
    push_str(v, "c=");
    let words: Vec<&String> = vec![&c.net_type, &c.addr_type, &c.address];
    let ghost before = v@;
    push_joined(v, words.as_slice());
    assert(Seq::new(words@.len(), |i: int| words@[i]@) =~= c@);
    v.push('\n');
    assert(v@ =~= old(v)@ + connection_line(c@));
}

/// Appends each word preceded by a space.
fn push_spaced(v: &mut Vec<char>, w: &Vec<String>)
    ensures
        final(v)@ == old(v)@ + spaced_words(strings_view(w@)),
{
    let ghost fs = strings_view(w@);
    let ghost head = v@;
    let mut i: usize = 0;
    while i < w.len()
        invariant
            i <= w@.len(),
            fs == strings_view(w@),
            v@ == head + spaced_words(fs.take(i as int)),
        decreases w.len() - i,
    {
        assert(fs.take(i + 1).drop_last() =~= fs.take(i as int));
        v.push(' ');
        push_str(v, w[i].as_str());
        assert(v@ =~= head + spaced_words(fs.take(i + 1)));
        i += 1;
    }
    assert(fs.take(fs.len() as int) =~= fs);
}

/// Appends the bandwidth lines.
fn push_bandwidth_lines(v: &mut Vec<char>, b: &Vec<crate::sdp::parser::Bandwidth>)
    ensures
        final(v)@ == old(v)@ + bandwidth_lines(bandwidth_view(b@)),
{
    let ghost bs = bandwidth_view(b@);
    let ghost head = v@;
    let mut j: usize = 0;
    while j < b.len()
        invariant
            j <= b@.len(),
            bs == bandwidth_view(b@),
            v@ == head + bandwidth_lines(bs.take(j as int)),
        decreases b.len() - j,
    {
        assert(bs.take(j + 1).drop_last() =~= bs.take(j as int));
        push_str(v, "b=");
        push_str(v, b[j].bw_type.as_str());
        v.push(':');
        push_dec(v, b[j].value as u64);
        v.push('\n');
        assert(v@ =~= head + bandwidth_lines(bs.take(j + 1)));
        j += 1;
    }
    assert(bs.take(bs.len() as int) =~= bs);
}

/// Appends the lines of a media description.
#[verifier::rlimit(40)]
#[verifier::spinoff_prover]
fn push_media(v: &mut Vec<char>, m: &MediaDescription)
    ensures
        final(v)@ == old(v)@ + media_text(m@),
{
    let ghost start = v@;
    push_str(v, "m=");
    let name = match m.media_type {
        MediaType::Audio => "audio",
        MediaType::Video => "video",
        MediaType::Application => "application",
        MediaType::Message => "message",
        MediaType::Other => "other",
    };
    push_str(v, name);
    v.push(' ');
    push_dec(v, m.port as u64);
    v.push(' ');
    push_str(v, m.protocol.as_str());
    push_spaced(v, &m.formats);
    v.push('\n');
    let ghost line = v@;
    let ghost first = "m="@ + media_type_name(m.media_type) + seq![' '] + dec(m.port as nat) + seq![' ']
        + m.protocol@ + spaced_words(strings_view(m.formats@)) + seq!['\n'];
    assert(line =~= start + first);
    let ghost conn = match m@.connection {
        Some(c) => connection_line(c),
        None => Seq::<char>::empty(),
    };
    match &m.connection {
        Some(c) => push_connection_line(v, c),
        None => {},
    }
    let ghost after_c = v@;
    assert(after_c =~= line + conn);
    push_bandwidth_lines(v, &m.bandwidth);
    let ghost after_b = v@;
    push_attribute_lines(v, &m.attributes);
    proof {
        let b = bandwidth_lines(m@.bandwidth);
        let a = attribute_lines(m@.attributes);
        assert(v@ == start + first + conn + b + a);
        assert(media_text(m@) == first + conn + b + a);
        assert(v@ =~= start + media_text(m@));
    }
}

/// Appends the session-level lines up to the timing line.
#[verifier::rlimit(80)]
#[verifier::spinoff_prover]
fn push_head(
    v: &mut Vec<char>,
    version: u8,
    o: &Origin,
    name: &String,
    info: &Option<String>,
    conn: &Option<Connection>,
    timing: Timing,
)
    ensures
        final(v)@ == old(v)@ + head_text(
            version,
            o@,
            name@,
            match *info {
                Some(i) => Some(i@),
                None => None,
            },
            match *conn {
                Some(c) => Some(c@),
                None => None,
            },
            timing,
        ),
{
    let ghost a0 = v@;
    push_str(v, "v=");
    push_dec(v, version as u64);
    v.push('\n');
    let ghost a1 = v@;
    assert(a1 =~= a0 + ("v="@ + dec(version as nat) + seq!['\n']));
    push_str(v, "o=");
    let words: Vec<&String> = vec![
        &o.username,
        &o.session_id,
        &o.session_version,
        &o.net_type,
        &o.addr_type,
        &o.unicast_address,
    ];
    push_joined(v, words.as_slice());
    assert(Seq::new(words@.len(), |i: int| words@[i]@) =~= o@);
    v.push('\n');
    let ghost a2 = v@;
    assert(a2 =~= a1 + ("o="@ + join_words(o@) + seq!['\n']));
    push_str(v, "s=");
    push_str(v, name.as_str());
    v.push('\n');
    let ghost a3 = v@;
    assert(a3 =~= a2 + ("s="@ + name@ + seq!['\n']));
    let ghost info_part = match info {
        Some(i) => "i="@ + i@ + seq!['\n'],
        None => Seq::<char>::empty(),
    };
    match info {
        Some(i) => {
            push_str(v, "i=");
            push_str(v, i.as_str());
            v.push('\n');
        },
        None => {},
    }
    let ghost a4 = v@;
    assert(a4 =~= a3 + info_part);
    let ghost conn_part = match conn {
        Some(c) => connection_line(c@),
        None => Seq::<char>::empty(),
    };
    match conn {
        Some(c) => push_connection_line(v, c),
        None => {},
    }
    let ghost a5 = v@;
    assert(a5 =~= a4 + conn_part);
    push_str(v, "t=");
    push_dec(v, timing.start);
    v.push(' ');
    push_dec(v, timing.stop);
    v.push('\n');
    let ghost tail = "t="@ + dec(timing.start as nat) + seq![' '] + dec(timing.stop as nat) + seq!['\n'];
    assert(v@ =~= a5 + tail);
}

impl SessionDescription {
    /// The description in SDP text form, one `<type>=<value>` line per field.
    pub fn to_sdp_string(&self) -> (s: String)
        ensures
            s@ == sdp_text(self@),
    {
        let mut v: Vec<char> = Vec::new();
        push_head(&mut v, self.version, &self.origin, &self.session_name, &self.session_info, &self.connection, self.timing);
        assert(v@ == sdp_head(self@));
        push_attribute_lines(&mut v, &self.attributes);
        let ghost ms = media_list_view(self.media@);
        let ghost head = v@;
        let mut i: usize = 0;
        while i < self.media.len()
            invariant
                i <= self.media@.len(),
                ms == media_list_view(self.media@),
                v@ == head + media_texts(ms.take(i as int)),
            decreases self.media.len() - i,
        {
            assert(ms.take(i + 1).drop_last() =~= ms.take(i as int));
            push_media(&mut v, &self.media[i]);
            assert(v@ =~= head + media_texts(ms.take(i + 1)));
            i += 1;
        }
        assert(ms.take(ms.len() as int) =~= ms);
        assert(v@ =~= sdp_text(self@));
        string_of(v.as_slice())
    }
}

} // verus!

verus! {

/// The direction a media builder writes is the direction its description reads as: the
/// attributes written before it (RTP maps, format parameters, packet time) name no direction,
/// and the last one is the direction's own name.
pub proof fn lemma_built_direction_reads_back(b: MediaBuilderView)
    ensures
        direction_from(media_builder_attributes(b), 0) == b.direction,
{
    let a = media_builder_attributes(b);
    let k = a.len() - 1;
    reveal_strlit("rtpmap");
    reveal_strlit("fmtp");
    reveal_strlit("ptime");
    reveal_strlit("sendrecv");
    reveal_strlit("sendonly");
    reveal_strlit("recvonly");
    reveal_strlit("inactive");
    assert(a[k].0 == direction_name(b.direction));
    assert forall|j: int| 0 <= j < k implies !names_direction(#[trigger] a[j].0) by {
        let n = a[j].0;
        assert(n == "rtpmap"@ || n == "fmtp"@ || n == "ptime"@);
        assert(n.len() < 8);
    }
    lemma_first_direction_attribute(a, k);
}

} // verus!
