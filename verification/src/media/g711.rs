//! G.711 (PCMU/PCMA) codec.
//!
//! G.711 is the standard telephone audio codec with two variants:
//! - PCMU (mu-law): RTP payload type 0, used in North America/Japan
//! - PCMA (A-law): RTP payload type 8, used in Europe and rest of world
//!
//! Both operate at 8kHz sample rate, 8 bits per sample, resulting in
//! 64 kbit/s bitrate (8000 samples/sec * 8 bits). The companding itself is done by the
//! `audio_codec_algorithms` crate.
use vstd::prelude::*;

verus! {

/// The μ-law byte that `audio_codec_algorithms::encode_ulaw` gives for a sample.
pub uninterp spec fn ulaw_encoded(sample: i16) -> u8;

/// The sample that `audio_codec_algorithms::decode_ulaw` gives for a μ-law byte.
pub uninterp spec fn ulaw_decoded(byte: u8) -> i16;

/// The A-law byte that `audio_codec_algorithms::encode_alaw` gives for a sample.
pub uninterp spec fn alaw_encoded(sample: i16) -> u8;

/// The sample that `audio_codec_algorithms::decode_alaw` gives for an A-law byte.
pub uninterp spec fn alaw_decoded(byte: u8) -> i16;

/// `audio_codec_algorithms::encode_ulaw`: μ-law companding of one sample, a function of the
/// sample alone.
#[verifier::external_body]
fn encode_ulaw(sample: i16) -> (b: u8)
    ensures
        b == ulaw_encoded(sample),
{
    audio_codec_algorithms::encode_ulaw(sample)
}

/// `audio_codec_algorithms::decode_ulaw`: a lookup in the crate's fixed μ-law table.
#[verifier::external_body]
fn decode_ulaw(byte: u8) -> (s: i16)
    ensures
        s == ulaw_decoded(byte),
{
    audio_codec_algorithms::decode_ulaw(byte)
}

/// `audio_codec_algorithms::encode_alaw`: A-law companding of one sample, a function of the
/// sample alone.
#[verifier::external_body]
fn encode_alaw(sample: i16) -> (b: u8)
    ensures
        b == alaw_encoded(sample),
{
    audio_codec_algorithms::encode_alaw(sample)
}

/// `audio_codec_algorithms::decode_alaw`: A-law expansion of one byte, a function of the
/// byte alone.
#[verifier::external_body]
fn decode_alaw(byte: u8) -> (s: i16)
    ensures
        s == alaw_decoded(byte),
{
    audio_codec_algorithms::decode_alaw(byte)
}

/// G.711 codec variant.
#[derive(Debug, Clone, Copy, PartialEq, Eq, Structural)]
pub enum G711Variant {
    /// Mu-law (PCMU), RTP payload type 0.
    MuLaw,
    /// A-law (PCMA), RTP payload type 8.
    ALaw,
}

/// The byte a variant encodes a sample to.
pub open spec fn g711_encoded(v: G711Variant, sample: i16) -> u8 {
    match v {
        G711Variant::MuLaw => ulaw_encoded(sample),
        G711Variant::ALaw => alaw_encoded(sample),
    }
}

/// The sample a variant decodes a byte to.
pub open spec fn g711_decoded(v: G711Variant, byte: u8) -> i16 {
    match v {
        G711Variant::MuLaw => ulaw_decoded(byte),
        G711Variant::ALaw => alaw_decoded(byte),
    }
}

/// The silence byte of a variant.
pub open spec fn g711_silence(v: G711Variant) -> u8 {
    match v {
        G711Variant::MuLaw => 0xFF,
        G711Variant::ALaw => 0xD5,
    }
}

impl G711Variant {
    /// Get the RTP payload type for this variant.
    pub fn payload_type(&self) -> (pt: u8)
        ensures
            pt == (match *self {
                G711Variant::MuLaw => 0u8,
                G711Variant::ALaw => 8u8,
            }),
    {
        match self {
            G711Variant::MuLaw => 0,
            G711Variant::ALaw => 8,
        }
    }

    /// Get the codec name.
    pub fn name(&self) -> (n: &'static str)
        ensures
            n@ == (match *self {
                G711Variant::MuLaw => "PCMU"@,
                G711Variant::ALaw => "PCMA"@,
            }),
    {
        match self {
            G711Variant::MuLaw => "PCMU",
            G711Variant::ALaw => "PCMA",
        }
    }
}

/// G.711 encoder/decoder.
#[derive(Debug, Clone)]
pub struct G711Codec {
    variant: G711Variant,
}

impl G711Codec {
    /// The codec's variant.
    pub closed spec fn spec_variant(&self) -> G711Variant {
        self.variant
    }

    /// Create a new G.711 codec.
    pub fn new(variant: G711Variant) -> (c: Self)
        ensures
            c.spec_variant() == variant,
    {
        G711Codec { variant }
    }

    /// Create a PCMU (mu-law) codec.
    pub fn pcmu() -> (c: Self)
        ensures
            c.spec_variant() == G711Variant::MuLaw,
    {
        Self::new(G711Variant::MuLaw)
    }

    /// Create a PCMA (A-law) codec.
    pub fn pcma() -> (c: Self)
        ensures
            c.spec_variant() == G711Variant::ALaw,
    {
        Self::new(G711Variant::ALaw)
    }

    /// Get the codec variant.
    pub fn variant(&self) -> (v: G711Variant)
        ensures
            v == self.spec_variant(),
    {
        self.variant
    }

    /// Get the sample rate (always 8000 Hz).
    pub fn sample_rate(&self) -> (r: u32)
        ensures
            r == 8000,
    {
        8000
    }

    /// Get samples per 20ms frame (160).
    pub fn samples_per_frame(&self) -> (n: usize)
        ensures
            n == 160,
    {
        160
    }

    /// Get bytes per 20ms frame (160).
    pub fn bytes_per_frame(&self) -> (n: usize)
        ensures
            n == 160,
    {
        160
    }

    /// Encode 16-bit PCM samples to G.711, one byte per sample.
    pub fn encode(&self, pcm: &[i16]) -> (out: Vec<u8>)
        ensures
            out@.len() == pcm@.len(),
            forall|i: int| 0 <= i < pcm@.len() ==> out@[i] == g711_encoded(self.spec_variant(), #[trigger] pcm@[i]),
    {
        let mut encoded: Vec<u8> = Vec::new();
        let mut i: usize = 0;
        while i < pcm.len()
            invariant
                i <= pcm.len(),
                encoded@.len() == i,
                forall|j: int| 0 <= j < i ==> encoded@[j] == g711_encoded(self.variant, #[trigger] pcm@[j]),
            decreases pcm.len() - i,
        {
            encoded.push(self.encode_sample(pcm[i]));
            i += 1;
        }
        encoded
    }

    /// Decode G.711 to 16-bit PCM samples, one sample per byte.
    pub fn decode(&self, data: &[u8]) -> (out: Vec<i16>)
        ensures
            out@.len() == data@.len(),
            forall|i: int| 0 <= i < data@.len() ==> out@[i] == g711_decoded(self.spec_variant(), #[trigger] data@[i]),
    {
        let mut decoded: Vec<i16> = Vec::new();
        let mut i: usize = 0;
        while i < data.len()
            invariant
                i <= data.len(),
                decoded@.len() == i,
                forall|j: int| 0 <= j < i ==> decoded@[j] == g711_decoded(self.variant, #[trigger] data@[j]),
            decreases data.len() - i,
        {
            decoded.push(self.decode_sample(data[i]));
            i += 1;
        }
        decoded
    }

    /// Encode a single sample.
    pub fn encode_sample(&self, sample: i16) -> (b: u8)
        ensures
            b == g711_encoded(self.spec_variant(), sample),
    {
        match self.variant {
            G711Variant::MuLaw => encode_ulaw(sample),
            G711Variant::ALaw => encode_alaw(sample),
        }
    }

    /// Decode a single sample.
    pub fn decode_sample(&self, byte: u8) -> (s: i16)
        ensures
            s == g711_decoded(self.spec_variant(), byte),
    {
        match self.variant {
            G711Variant::MuLaw => decode_ulaw(byte),
            G711Variant::ALaw => decode_alaw(byte),
        }
    }
}

/// The silence byte for the codec variant: 0xFF for μ-law, 0xD5 for A-law.
pub fn silence_byte(variant: G711Variant) -> (b: u8)
    ensures
        b == g711_silence(variant),
{
    match variant {
        G711Variant::MuLaw => 0xFF,
        G711Variant::ALaw => 0xD5,
    }
}

/// Generate a silence frame of `samples` bytes.
pub fn silence_frame(variant: G711Variant, samples: usize) -> (f: Vec<u8>)
    ensures
        f@ == Seq::new(samples as nat, |i: int| g711_silence(variant)),
{
    let b = silence_byte(variant);
    let mut frame: Vec<u8> = Vec::new();
    let mut i: usize = 0;
    while i < samples
        invariant
            i <= samples,
            b == g711_silence(variant),
            frame@ == Seq::new(i as nat, |k: int| g711_silence(variant)),
        decreases samples - i,
    {
        frame.push(b);
        assert(frame@ =~= Seq::new((i + 1) as nat, |k: int| g711_silence(variant)));
        i += 1;
    }
    frame
}

} // verus!
