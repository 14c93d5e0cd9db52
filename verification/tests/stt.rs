//! Names, flags and previews of the transcription bench.

use murmur::stt::{label_for, model_label, parse_flags, preview, transcript_text};

fn args(list: &[&str]) -> Vec<String> {
    list.iter().map(|s| s.to_string()).collect()
}

#[test]
fn label_is_the_name_of_the_model_file() {
    assert_eq!(model_label("models/ggml-base.en.bin"), "base.en");
    assert_eq!(model_label("models/custom.bin"), "custom");
    assert_eq!(model_label("ggml-tiny"), "tiny");
    assert_eq!(model_label("a/.hidden"), ".hidden");
    assert_eq!(model_label("a/b..bin"), "b.");
    assert_eq!(model_label(".."), "..");
}

#[test]
fn label_drops_one_prefix() {
    assert_eq!(label_for(Some("ggml-tiny".into()), "m"), "tiny");
    assert_eq!(label_for(Some("ggml-ggml-x".into()), "m"), "ggml-x");
    assert_eq!(label_for(None, "models"), "models");
}

#[test]
fn flags_come_in_pairs() {
    let flags = parse_flags(&args(&["--wav", "a.wav", "stray", "--model", "m.bin", "--wav", "b.wav"]));
    assert_eq!(flags.get("wav"), Some("b.wav"));
    assert_eq!(flags.get("model"), Some("m.bin"));
    assert_eq!(flags.get("threads"), None);
    assert_eq!(parse_flags(&args(&["--wav"])).get("wav"), Some(""));
}

#[test]
fn preview_cuts_by_characters() {
    assert_eq!(preview("short", 5), "short");
    assert_eq!(preview("longer", 5), "longe…");
    assert_eq!(preview("äöü", 2), "äö…");
    assert_eq!(preview("", 0), "");
}

#[test]
fn transcript_is_the_segments_without_the_white_space_around_them() {
    assert_eq!(transcript_text(&args(&[" order", " lumber. "])), "order lumber.");
    assert_eq!(transcript_text(&args(&[" \n", "\u{a0}"])), "");
    assert_eq!(transcript_text(&Vec::new()), "");
}

#[test]
fn label_does_not_mind_how_a_path_ends() {
    assert_eq!(model_label("models/ggml-base.en.bin/"), "base.en");
    assert_eq!(model_label("models/ggml-base.en.bin//"), "base.en");
    assert_eq!(model_label("models/ggml-base.en.bin/."), "base.en");
    assert_eq!(model_label("models/ggml-base.en.bin/.//"), "base.en");
    assert_eq!(model_label("models/ggml-tiny.bin/.."), "models/ggml-tiny.bin/..");
    assert_eq!(model_label("ggml-x/.."), "x/..");
    assert_eq!(model_label("/"), "/");
    assert_eq!(model_label(""), "");
    assert_eq!(model_label("./ggml-tiny.bin"), "tiny");
}
