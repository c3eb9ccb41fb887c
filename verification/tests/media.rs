use aiva::audio::{
    capture_rate, choose_input_config, decimal_string, describe, encode_wav, rates_fit, select_input_config,
    InputConfig, RecorderState, SampleFormat,
};
use aiva::codec::{decode, encode};
use aiva::tts::{clean_text_for_tts, speak_request, synthesis_step, synthesize_request, SynthesisStep, TTSResponse};

#[test]
fn base64_known_values() {
    assert_eq!(encode(b""), "");
    assert_eq!(encode(b"f"), "Zg==");
    assert_eq!(encode(b"fo"), "Zm8=");
    assert_eq!(encode(b"foo"), "Zm9v");
    assert_eq!(encode(b"foobar"), "Zm9vYmFy");
    assert_eq!(encode(&[0xfb, 0xff]), "+/8=");
}

#[test]
fn base64_round_trip() {
    let data: Vec<u8> = (0..=255u8).chain(0..7u8).collect();
    for n in 0..data.len() {
        let text = encode(&data[..n]);
        assert_eq!(decode(&text).unwrap(), data[..n].to_vec());
    }
}

#[test]
fn base64_refuses_non_canonical_text() {
    assert!(decode("Zg").is_err());
    assert!(decode("Zh==").is_err());
    assert!(decode("Zg=!").is_err());
    assert!(decode("Z g==").is_err());
}

fn cfg(format: SampleFormat, channels: u16, min_rate: u32, max_rate: u32) -> InputConfig {
    InputConfig { format, channels, min_rate, max_rate }
}

#[test]
fn rates_fit_looks_only_at_ranked_configurations() {
    let huge = 3_000_000_000u32;
    assert!(rates_fit(&vec![]));
    assert!(rates_fit(&vec![cfg(SampleFormat::F32, 1, 8000, 48000)]));
    assert!(!rates_fit(&vec![cfg(SampleFormat::F32, 2, 8000, huge)]));
    // a float configuration is found first, so the integer ones are never ranked
    assert!(rates_fit(&vec![cfg(SampleFormat::I16, 1, 8000, huge), cfg(SampleFormat::F32, 1, 8000, 48000)]));
    // without a float configuration the 16-bit ones are ranked
    assert!(!rates_fit(&vec![cfg(SampleFormat::I16, 1, 8000, huge), cfg(SampleFormat::U8, 1, 8000, 48000)]));
    // unusable channel counts and unknown formats are never ranked
    assert!(rates_fit(&vec![cfg(SampleFormat::F32, 6, huge, huge), cfg(SampleFormat::F64, 1, huge, huge)]));
}

#[test]
fn input_config_prefers_float_then_distance() {
    let cs = vec![
        cfg(SampleFormat::I16, 1, 16000, 16000),
        cfg(SampleFormat::F32, 2, 44100, 48000),
        cfg(SampleFormat::F32, 1, 8000, 22050),
        cfg(SampleFormat::F32, 6, 16000, 16000),
    ];
    assert_eq!(select_input_config(&cs), Some(2));
    let cs = vec![cfg(SampleFormat::F32, 2, 44100, 48000), cfg(SampleFormat::F32, 1, 48000, 48000)];
    // equal distances: the first one wins
    assert_eq!(select_input_config(&cs), Some(0));
    let cs = vec![cfg(SampleFormat::U8, 1, 8000, 8000), cfg(SampleFormat::U16, 2, 48000, 48000)];
    assert_eq!(select_input_config(&cs), Some(1));
    let cs = vec![cfg(SampleFormat::F64, 1, 16000, 16000), cfg(SampleFormat::I16, 5, 16000, 16000)];
    assert_eq!(select_input_config(&cs), None);
}

#[test]
fn input_config_errors() {
    assert_eq!(choose_input_config(&vec![]), Err("No input configurations available on device".to_string()));
    let cs = vec![cfg(SampleFormat::F64, 2, 44100, 48000), cfg(SampleFormat::I16, 8, 8000, 96000)];
    assert_eq!(
        choose_input_config(&cs),
        Err("No suitable input config found.\nRequired: 1-4 channels\nAvailable formats on device:\n  F64 (2ch, 44100-48000Hz)\n  I16 (8ch, 8000-96000Hz)".to_string())
    );
    assert_eq!(choose_input_config(&vec![cfg(SampleFormat::I32, 4, 44100, 44100)]), Ok(0));
}

#[test]
fn describe_and_decimal() {
    assert_eq!(decimal_string(0), "0");
    assert_eq!(decimal_string(4294967295), "4294967295");
    assert_eq!(describe(&cfg(SampleFormat::U16, 2, 8000, 192000)), "U16 (2ch, 8000-192000Hz)");
}

#[test]
fn capture_rates() {
    assert_eq!(capture_rate(8000, 48000), 16000);
    assert_eq!(capture_rate(44100, 48000), 44100);
    assert_eq!(capture_rate(48000, 48000), 48000);
    assert_eq!(capture_rate(8000, 11025), 11025);
    assert_eq!(capture_rate(22050, 96000), 44100);
}

#[test]
fn wav_layout() {
    let b = encode_wav(&vec![1i16, -2, 32767]);
    assert_eq!(b.len(), 44 + 6);
    assert_eq!(&b[0..4], b"RIFF");
    assert_eq!(&b[4..8], &(36u32 + 6).to_le_bytes());
    assert_eq!(&b[8..16], b"WAVEfmt ");
    assert_eq!(&b[16..20], &16u32.to_le_bytes());
    assert_eq!(&b[20..24], &[1, 0, 1, 0]);
    assert_eq!(&b[24..28], &16000u32.to_le_bytes());
    assert_eq!(&b[28..32], &32000u32.to_le_bytes());
    assert_eq!(&b[32..36], &[2, 0, 16, 0]);
    assert_eq!(&b[36..40], b"data");
    assert_eq!(&b[40..44], &6u32.to_le_bytes());
    assert_eq!(&b[44..], &[1, 0, 0xfe, 0xff, 0xff, 0x7f]);
    assert_eq!(encode_wav(&vec![]).len(), 44);
}

fn le16_at(b: &[u8], i: usize) -> u16 {
    u16::from_le_bytes([b[i], b[i + 1]])
}

fn le32_at(b: &[u8], i: usize) -> u32 {
    u32::from_le_bytes([b[i], b[i + 1], b[i + 2], b[i + 3]])
}

#[test]
fn wav_reads_back_the_samples() {
    let samples = vec![0i16, 1, -1, i16::MIN, i16::MAX, 12345, -12345];
    let b = encode_wav(&samples);
    assert_eq!(b.len(), 44 + 2 * samples.len());
    assert_eq!(le32_at(&b, 4) as usize, b.len() - 8);
    assert_eq!(le16_at(&b, 20), 1);
    assert_eq!(le16_at(&b, 22), 1);
    assert_eq!(le32_at(&b, 24), 16000);
    assert_eq!(le16_at(&b, 34), 16);
    assert_eq!(le32_at(&b, 40) as usize, 2 * samples.len());
    let read: Vec<i16> = (0..samples.len()).map(|k| le16_at(&b, 44 + 2 * k) as i16).collect();
    assert_eq!(read, samples);
}

#[test]
fn clean_text_strips_markdown_and_emoji() {
    assert_eq!(clean_text_for_tts("**Hello** world 😀"), "Hello world");
    assert_eq!(clean_text_for_tts("# Title\nSome *italic* and `code`"), "Title Some italic and code");
    assert_eq!(clean_text_for_tts("See [the docs](http://x.y) ~~now~~"), "See the docs now");
    assert_eq!(clean_text_for_tts("  spaced \t\n out  "), "spaced out");
    assert_eq!(clean_text_for_tts("🚀✨"), "");
    assert_eq!(clean_text_for_tts("snake_case_name"), "snakecasename");
}

#[test]
fn clean_text_removes_fenced_code_blocks() {
    assert_eq!(clean_text_for_tts("Run ```ls -la``` now"), "Run now");
    assert_eq!(clean_text_for_tts("Before\n```rust\nfn main() {}\n```\nAfter"), "Before After");
    assert_eq!(clean_text_for_tts("```only code```"), "");
}

#[test]
fn clean_text_leaves_plain_text_alone() {
    for s in ["Hello there.", "It costs 5 dollars, roughly.", "a", ""] {
        assert_eq!(clean_text_for_tts(s), s);
    }
}

#[test]
fn clean_text_is_single_spaced_and_never_longer() {
    for s in [
        "  **a**\t\t b\n\n c  ",
        "\u{3000}x\u{a0}\u{a0}y\u{2028}",
        "# H\n\n- item *one*\n- item _two_",
        "Weather \u{2600}\u{fe0f}  \u{1f600} ok",
        "```x```  ```y```",
    ] {
        let r = clean_text_for_tts(s);
        assert!(r.chars().count() <= s.chars().count(), "input {:?}", s);
        assert!(r.len() <= s.len(), "input {:?}", s);
        assert_eq!(r, r.trim());
        assert!(!r.contains("  "), "input {:?}", s);
        assert!(r.chars().all(|c| !c.is_whitespace() || c == ' '), "input {:?}", s);
    }
}

#[test]
fn speak_request_skips_empty_text() {
    assert_eq!(speak_request("😀 "), None);
    assert_eq!(
        speak_request("**Hi** there"),
        Some("{\"cmd\":\"synthesize\",\"streaming\":true,\"text\":\"Hi there\"}".to_string())
    );
    assert_eq!(synthesize_request("a\"b"), "{\"cmd\":\"synthesize\",\"streaming\":true,\"text\":\"a\\\"b\"}");
}

fn tts(kind: &str, message: Option<&str>, audio: Option<&str>) -> TTSResponse {
    TTSResponse {
        response_type: kind.to_string(),
        message: message.map(String::from),
        audio: audio.map(String::from),
    }
}

#[test]
fn synthesis_steps() {
    assert!(matches!(synthesis_step(tts("audio_chunk", None, Some("UklGRg=="))), SynthesisStep::Audio(b) if b == b"RIFF"));
    assert!(matches!(synthesis_step(tts("audio_chunk", None, None)), SynthesisStep::Failed(e) if e == "No audio data in chunk"));
    assert!(matches!(synthesis_step(tts("audio_chunk", None, Some("%%"))), SynthesisStep::Failed(e) if e.starts_with("Failed to decode audio chunk: ")));
    assert!(matches!(synthesis_step(tts("audio_done", None, None)), SynthesisStep::Done));
    assert!(matches!(synthesis_step(tts("error", Some("no voice"), None)), SynthesisStep::Failed(e) if e == "Synthesis error: no voice"));
    assert!(matches!(synthesis_step(tts("status", None, None)), SynthesisStep::Pending));
}

/// The same cleaning written directly with `regex`, step by step.
fn reference_clean(text: &str) -> String {
    let mut result = text.to_string();
    for (pattern, rep) in [
        (r"(?s)```.*?```", ""),
        (r"\*\*(.+?)\*\*", "$1"),
        (r"__(.+?)__", "$1"),
        (r"\*(.+?)\*", "$1"),
        (r"_(.+?)_", "$1"),
        (r"`(.+?)`", "$1"),
        (r"~~(.+?)~~", "$1"),
        (r"\[(.+?)\]\(.+?\)", "$1"),
        (r"(?m)^#+\s+", ""),
    ] {
        result = regex::Regex::new(pattern).unwrap().replace_all(&result, rep).to_string();
    }
    result = result
        .chars()
        .filter(|c| {
            let code = *c as u32;
            !((0x1F600..=0x1F64F).contains(&code)
                || (0x1F300..=0x1F5FF).contains(&code)
                || (0x1F680..=0x1F6FF).contains(&code)
                || (0x1F1E0..=0x1F1FF).contains(&code)
                || (0x1F900..=0x1F9FF).contains(&code)
                || (0x1FA00..=0x1FA6F).contains(&code)
                || (0x1FA70..=0x1FAFF).contains(&code)
                || (0x2600..=0x26FF).contains(&code)
                || (0x2700..=0x27BF).contains(&code)
                || (0x2300..=0x23FF).contains(&code)
                || (0xFE00..=0xFE0F).contains(&code)
                || (0xD800..=0xDFFF).contains(&code)
                || (0xFFF0..=0xFFFF).contains(&code))
        })
        .collect();
    result = regex::Regex::new(r"\s+").unwrap().replace_all(&result, " ").to_string();
    result.trim().to_string()
}

#[test]
fn clean_text_agrees_with_step_by_step_cleaning() {
    for s in [
        "a ```let x = 1;``` b",
        "```\nfn main() {}\n```\nDone.",
        "## Heading\n### Sub\ntext",
        "__bold__ and _it_ and **b** *i*",
        "Weather: \u{2600}\u{fe0f} sunny \u{1f600}",
        "\u{3000}wide\u{3000}space\u{a0}",
        "plain",
        "",
        "[link](u) [x](y)",
    ] {
        assert_eq!(clean_text_for_tts(s), reference_clean(s), "input {:?}", s);
    }
}

#[test]
fn clean_text_never_grows_in_bytes() {
    // a three-byte ideographic space becomes a one-byte space
    let s = "a\u{3000}\u{3000}b";
    let r = clean_text_for_tts(s);
    assert_eq!(r, "a b");
    assert!(r.len() < s.len());
    for s in ["**\u{e9}t\u{e9}**", "[\u{4e2d}\u{6587}](http://x)", "\u{1f600}\u{a0}x", "## \u{fc}ber"] {
        assert!(clean_text_for_tts(s).len() <= s.len(), "input {:?}", s);
    }
}

#[test]
fn recorder_state_follows_a_recording() {
    let mut st = RecorderState::new();
    assert!(!st.is_recording());
    assert_eq!(st.sample_rate(), 16000);
    assert!(st.begin());
    st.set_rate(44100);
    st.started();
    assert!(st.is_recording());
    // a second start while recording opens nothing
    assert!(!st.begin());
    assert_eq!(st.stop(10), Ok(true));
    assert!(!st.is_recording());
    assert_eq!(st.stop(10), Err("Not recording".to_string()));
    st.set_rate(16000);
    st.started();
    assert_eq!(st.stop(0), Err("No audio captured".to_string()));
    st.started();
    assert_eq!(st.stop(5), Ok(false));
}
