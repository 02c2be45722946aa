use rsiprtp::media::g711::{silence_byte, silence_frame, G711Codec, G711Variant};
use rsiprtp::media::mixer::{AudioMixer, ConferenceMixer};

#[test]
fn test_pcmu_roundtrip() {
    let codec = G711Codec::pcmu();
    let samples: Vec<i16> = (-32000..=32000).step_by(1000).collect();
    let encoded = codec.encode(&samples);
    let decoded = codec.decode(&encoded);
    assert_eq!(decoded.len(), samples.len());
    for (original, decoded) in samples.iter().zip(decoded.iter()) {
        let error = (*original as i32 - *decoded as i32).abs();
        assert!(error < 500, "Error too large: {} vs {}", original, decoded);
    }
}

#[test]
fn test_pcma_roundtrip() {
    let codec = G711Codec::pcma();
    let samples: Vec<i16> = (-32000..=32000).step_by(1000).collect();
    let encoded = codec.encode(&samples);
    let decoded = codec.decode(&encoded);
    for (original, decoded) in samples.iter().zip(decoded.iter()) {
        let error = (*original as i32 - *decoded as i32).abs();
        assert!(error < 500, "Error too large: {} vs {}", original, decoded);
    }
}

#[test]
fn test_frame_sizes() {
    let codec = G711Codec::pcmu();
    assert_eq!(codec.sample_rate(), 8000);
    assert_eq!(codec.samples_per_frame(), 160);
    assert_eq!(codec.bytes_per_frame(), 160);
}

#[test]
fn test_payload_types() {
    assert_eq!(G711Variant::MuLaw.payload_type(), 0);
    assert_eq!(G711Variant::ALaw.payload_type(), 8);
}

#[test]
fn test_silence() {
    let mu_silence = G711Codec::pcmu().decode_sample(silence_byte(G711Variant::MuLaw));
    let a_silence = G711Codec::pcma().decode_sample(silence_byte(G711Variant::ALaw));
    assert!(mu_silence.abs() < 10, "Mu-law silence not quiet: {}", mu_silence);
    assert!(a_silence.abs() < 10, "A-law silence not quiet: {}", a_silence);
}

#[test]
fn test_silence_frame() {
    let frame = silence_frame(G711Variant::MuLaw, 160);
    assert_eq!(frame.len(), 160);
    assert!(frame.iter().all(|&b| b == 0xFF));
    let frame = silence_frame(G711Variant::ALaw, 3);
    assert_eq!(frame, vec![0xD5, 0xD5, 0xD5]);
}

#[test]
fn codec_samples_go_through_the_tables() {
    // Sample-wise calls agree with the frame calls.
    let codec = G711Codec::pcmu();
    let pcm = [0i16, 1000, -1000];
    let frame = codec.encode(&pcm);
    for (i, s) in pcm.iter().enumerate() {
        assert_eq!(frame[i], codec.encode_sample(*s));
    }
    // The encoder does not hand back the low byte of the sample.
    assert_ne!(codec.encode_sample(1000), (1000i16 & 0xff) as u8);
    assert_eq!(codec.encode_sample(0), 0xFF);
    assert_eq!(G711Codec::pcma().encode_sample(0), 0xD5);
    assert_eq!(G711Variant::MuLaw.name(), "PCMU");
    assert_eq!(G711Variant::ALaw.name(), "PCMA");
}

#[test]
fn test_mixer_single_source() {
    let mut mixer = AudioMixer::new(8000);
    let samples: Vec<i16> = vec![100, 200, 300, -100, -200];
    mixer.add_source(1, &samples);
    let (mixed, csrc) = mixer.mix(5);
    assert_eq!(mixed, samples);
    assert_eq!(csrc, vec![1]);
}

#[test]
fn test_mixer_two_sources() {
    let mut mixer = AudioMixer::new(8000);
    mixer.add_source(1, &[100, 200, 300]);
    mixer.add_source(2, &[50, 100, 150]);
    let (mixed, csrc) = mixer.mix(3);
    assert_eq!(mixed, vec![150, 300, 450]);
    assert!(csrc.contains(&1));
    assert!(csrc.contains(&2));
}

#[test]
fn test_mixer_overflow_clamp() {
    let mut mixer = AudioMixer::new(8000);
    mixer.add_source(1, &[i16::MAX, i16::MAX]);
    mixer.add_source(2, &[i16::MAX, 1000]);
    let (mixed, _) = mixer.mix(2);
    assert_eq!(mixed[0], i16::MAX);
    assert_eq!(mixed[1], i16::MAX);
}

#[test]
fn mixer_clamps_below_too() {
    let mut mixer = AudioMixer::new(8000);
    mixer.add_source(1, &[i16::MIN, -20000]);
    mixer.add_source(2, &[-5, -20000]);
    let (mixed, _) = mixer.mix(3);
    assert_eq!(mixed, vec![i16::MIN, i16::MIN, 0]);
}

#[test]
fn mixer_saturates_the_sum_once() {
    let mut mixer = AudioMixer::new(8000);
    mixer.add_source(1, &[i16::MAX, -30000]);
    mixer.add_source(2, &[i16::MAX, -30000]);
    mixer.add_source(3, &[-i16::MAX, 30000]);
    let (mixed, csrc) = mixer.mix(2);
    assert_eq!(mixed, vec![i16::MAX, -30000]);
    assert_eq!(csrc, vec![1, 2, 3]);
}

#[test]
fn test_mixer_n_minus_1() {
    let mut mixer = AudioMixer::new(8000);
    mixer.add_source(1, &[100]);
    mixer.add_source(2, &[200]);
    mixer.add_source(3, &[300]);
    let (mixed, csrc) = mixer.mix_except(1, Some(1));
    assert_eq!(mixed, vec![500]);
    assert!(!csrc.contains(&1));
    assert!(csrc.contains(&2));
    assert!(csrc.contains(&3));
}

#[test]
fn test_mixer_inactive_source() {
    let mut mixer = AudioMixer::new(8000);
    mixer.add_source(1, &[100, 200]);
    mixer.add_source(2, &[50, 100]);
    mixer.mark_silent(2);
    let (mixed, csrc) = mixer.mix(2);
    assert_eq!(mixed, vec![100, 200]);
    assert!(csrc.contains(&1));
    assert!(!csrc.contains(&2));
}

#[test]
fn test_conference_mixer() {
    let mut conf = ConferenceMixer::new(8000, 20);
    conf.submit_audio(1, &vec![100; 160]);
    conf.submit_audio(2, &vec![50; 160]);
    let (mix1, _) = conf.get_mix_for(1);
    assert_eq!(mix1.len(), 160);
    assert_eq!(mix1[0], 50);
    let (mix2, _) = conf.get_mix_for(2);
    assert_eq!(mix2[0], 100);
    assert_eq!(conf.participant_count(), 2);
    conf.remove_participant(1);
    assert_eq!(conf.participant_count(), 1);
}

#[test]
fn test_mixer_max_sources() {
    let mut mixer = AudioMixer::new(8000);
    mixer.set_max_sources(3);
    for i in 1..=4 {
        mixer.add_source(i, &[100]);
    }
    assert!(mixer.active_source_count() <= 3);
    assert_eq!(mixer.source_ssrcs(), vec![1, 2, 3]);
}

#[test]
fn mixer_evicts_a_silent_source_when_full() {
    let mut mixer = AudioMixer::new(8000);
    mixer.set_max_sources(2);
    mixer.add_source(1, &[1]);
    mixer.add_source(2, &[2]);
    mixer.mark_silent(1);
    mixer.add_source(3, &[3]);
    assert_eq!(mixer.source_ssrcs(), vec![2, 3]);
    mixer.remove_source(2);
    assert_eq!(mixer.source_ssrcs(), vec![3]);
    mixer.clear();
    assert!(mixer.source_ssrcs().is_empty());
}
