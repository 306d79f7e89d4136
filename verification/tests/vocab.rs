use sonic_oxide::tutorial::SourceFile;
use sonic_oxide::vocab::index::{vocab_paths, Vocab, VocabSources};
use sonic_oxide::vocab::lang::leading_name_by;
use sonic_oxide::vocab::matching::{word_prefix_at, words_by};
use sonic_oxide::vocab::names::{note_names, parse_chord_names, parse_scale_names};
use sonic_oxide::vocab::{parse_cheatsheet, parse_lang_docs, OptDoc, VocabEntry, VocabKind};

const CHEAT: &str = "# Synths\n\n* [Dull Bell](#dull-bell)\n\n## Dull Bell\n\n### Key:\n  :dull_bell\n\n### Doc:\n  A simple dull discordant bell sound.\n\n### Opts:\n  * amp: 1\n\n## TB-303 Emulation\n\n### Key:\n  :tb303\n\n### Doc:\n  Emulation of the classic\n  acid bass machine.\n";

fn opt(name: &str, default: &str) -> OptDoc {
    OptDoc { name: name.into(), default: default.into(), ..Default::default() }
}

fn labels(entries: Vec<&VocabEntry>) -> Vec<String> {
    entries.iter().map(|e| e.label.clone()).collect()
}

#[test]
fn parses_cheatsheet_keys_and_docs() {
    let entries = parse_cheatsheet(CHEAT, VocabKind::Synth);
    assert_eq!(entries.len(), 2);
    assert_eq!(entries[0].label, ":dull_bell");
    assert_eq!(entries[0].doc, "A simple dull discordant bell sound.");
    assert_eq!(entries[0].opt_docs.len(), 1);
    assert_eq!(entries[0].opt_docs[0].name, "amp:");
    assert_eq!(entries[0].opt_docs[0].default, "1");
    assert_eq!(entries[1].label, ":tb303");
    assert_eq!(entries[1].doc, "Emulation of the classic acid bass machine.");
    assert!(entries[1].opt_docs.is_empty());
}

#[test]
fn parses_real_format_opt_docs() {
    let md = "## Dull Bell\n\n### Key:\n  :dull_bell\n\n### Doc:\n  A bell.\n\n### Opts:\n  * note:\n    - doc: Note to play.\n    - default: 52\n    - constraints: must be zero or greater\n    - May be changed whilst playing\n  * amp:\n    - doc: The amplitude.\n    - default: 1\n";
    let entries = parse_cheatsheet(md, VocabKind::Synth);
    assert_eq!(entries.len(), 1);
    let opts = &entries[0].opt_docs;
    assert_eq!(opts.len(), 2);
    assert_eq!(opts[0].name, "note:");
    assert_eq!(opts[0].default, "52");
    assert_eq!(opts[0].doc, "Note to play.");
    assert_eq!(
        opts[0].notes,
        vec!["constraints: must be zero or greater", "May be changed whilst playing"]
    );
    assert_eq!(opts[1].name, "amp:");
    assert_eq!(opts[1].default, "1");

    let md = entries[0].doc_markdown();
    assert!(md.contains("`:dull_bell`"));
    assert!(md.contains("**`note:`** *(default 52)* — Note to play."));
    assert!(md.contains("must be zero or greater"));
}

#[test]
fn by_kind_lists_sorted_categories() {
    let vocab = Vocab {
        entries: vec![
            VocabEntry::new(":tb303", VocabKind::Synth, ""),
            VocabEntry::new(":beep", VocabKind::Synth, ""),
            VocabEntry::new("play", VocabKind::Func, ""),
        ],
    };
    let found = vocab.by_kind(VocabKind::Synth);
    let synths: Vec<&str> = found.iter().map(|e| e.label.as_str()).collect();
    assert_eq!(synths, vec![":beep", ":tb303"]);
    assert_eq!(vocab.by_kind(VocabKind::Sample).len(), 0);
}

#[test]
fn parses_lang_doc_blocks() {
    let rb = r#"
       doc name:          :play,
           introduced:    Version.new(2,0,0),
           summary:       "Play current synth",
           doc:           "long text
spanning multiple lines with a \"quoted\" bit
and more.",
           examples:      ["play 60"]
       doc name:          :live_loop,
           summary:       "A loop for live coding",
           doc:           "one liner",
"#;
    let entries = parse_lang_docs(rb);
    assert_eq!(entries.len(), 2);
    assert_eq!(entries[0].label, "play");
    assert_eq!(entries[0].doc, "Play current synth");
    assert_eq!(
        entries[0].long_doc,
        "long text\nspanning multiple lines with a \"quoted\" bit\nand more."
    );
    assert_eq!(entries[1].label, "live_loop");
    assert_eq!(entries[1].long_doc, "one liner");
}

#[test]
fn completes_symbols_and_functions() {
    let vocab = Vocab {
        entries: vec![
            VocabEntry::new(":tb303", VocabKind::Synth, ""),
            VocabEntry::new(":bd_haus", VocabKind::Sample, ""),
            VocabEntry::new("play", VocabKind::Func, ""),
            VocabEntry::new("play_chord", VocabKind::Func, ""),
        ],
    };
    let hits: Vec<_> = vocab.complete(":tb", 10).iter().map(|e| e.label.clone()).collect();
    assert_eq!(hits, vec![":tb303"]);
    let hits: Vec<_> = vocab.complete("pla", 10).iter().map(|e| e.label.clone()).collect();
    assert_eq!(hits, vec!["play", "play_chord"]);
    let hits: Vec<_> = vocab.complete("bd_", 10).iter().map(|e| e.label.clone()).collect();
    assert_eq!(hits, vec![":bd_haus"]);
    assert!(vocab.complete("p", 10).is_empty());
    assert_eq!(labels(vocab.complete("pla", 1)), vec!["play"]);
}

#[test]
fn opt_completions_follow_the_nearest_symbol() {
    let mut tb303 = VocabEntry::new(":tb303", VocabKind::Synth, "");
    tb303.opt_docs = vec![opt("cutoff:", "100"), opt("res:", "0.9"), opt("amp:", "1")];
    let mut reverb = VocabEntry::new(":reverb", VocabKind::Fx, "");
    reverb.opt_docs = vec![opt("mix:", "0.4"), opt("room:", "0.6")];
    let vocab = Vocab {
        entries: vec![tb303, reverb, VocabEntry::new(":bd_haus", VocabKind::Sample, "")],
    };

    let hits = vocab.opt_completions("use_synth :tb303\nplay 60, cu", "cu", 10);
    assert_eq!(hits, vec![("cutoff:".to_string(), "100".to_string())]);

    let hits = vocab.opt_completions("with_fx :reverb do :tb303 ", "re", 10);
    assert_eq!(hits, vec![("res:".to_string(), "0.9".to_string())]);

    assert!(vocab.opt_completions("sample :bd_haus, am", "am", 10).is_empty());
    assert!(vocab.opt_completions("use_synth :tb303, ", ":cu", 10).is_empty());
}

#[test]
fn notes_scales_chords_load() {
    let notes = note_names();
    assert_eq!(notes.len(), 17 * 9);
    assert!(notes.iter().any(|n| n.label == ":c4"));
    assert!(notes.iter().any(|n| n.label == ":fs3"));

    let scale_rb = "    SCALE = lambda{\n      x = 1\n      {\n           diatonic:           ionian_sequence,\n           dorian:             ionian_sequence.rotate(1),\n      }\n    }.call\n";
    let scales: Vec<String> = parse_scale_names(scale_rb).into_iter().map(|e| e.label).collect();
    assert_eq!(scales, vec![":diatonic", ":dorian"]);

    let chord_rb =
        "        :major7          => major7,\n        :m7 => minor7,\n        not_a_chord\n";
    let chords: Vec<String> = parse_chord_names(chord_rb).into_iter().map(|e| e.label).collect();
    assert_eq!(chords, vec![":major7", ":m7"]);
}

#[test]
fn search_is_substring_and_ranked() {
    let vocab = Vocab {
        entries: vec![
            VocabEntry::new(":bd_haus", VocabKind::Sample, ""),
            VocabEntry::new("play", VocabKind::Func, ""),
            VocabEntry::new("play_pattern_timed", VocabKind::Func, ""),
        ],
    };
    let hits: Vec<_> = vocab.search("haus", 10).iter().map(|e| e.label.clone()).collect();
    assert_eq!(hits, vec![":bd_haus"]);
    let hits: Vec<_> = vocab.search("play", 10).iter().map(|e| e.label.clone()).collect();
    assert_eq!(hits, vec!["play", "play_pattern_timed"]);
    assert!(vocab.search("", 10).is_empty());
    assert_eq!(vocab.get("play").unwrap().label, "play");
}

#[test]
fn search_ignores_letter_case() {
    let vocab = Vocab { entries: vec![VocabEntry::new(":BD_Haus", VocabKind::Sample, "")] };
    assert_eq!(labels(vocab.search("  hAUS ", 10)), vec![":BD_Haus"]);
    assert!(vocab.get("nothing").is_none());
}

#[test]
fn word_prefix_extraction() {
    assert_eq!(word_prefix_at("play :tb3", 9), (5, ":tb3"));
    assert_eq!(word_prefix_at("  live_lo", 9), (2, "live_lo"));
    assert_eq!(word_prefix_at("play 60", 4), (0, "play"));
    assert_eq!(word_prefix_at("x = A::B", 8), (7, "B"));
    assert_eq!(word_prefix_at("", 0), (0, ""));
    assert_eq!(word_prefix_at("é_x", 99), (2, "_x"));
    assert_eq!(word_prefix_at("aé", 2), (0, "a"));
}

fn sources() -> VocabSources {
    VocabSources {
        synths: CHEAT.to_string(),
        fx: String::new(),
        sample_files: vec!["bd_haus.flac".to_string(), "readme.md".to_string()],
        lang: vec![
            SourceFile {
                name: "sound.rb".to_string(),
                text: Some("doc name: :play,\nsummary: \"Play\",\n".to_string()),
            },
            SourceFile { name: "gone.rb".to_string(), text: None },
            SourceFile {
                name: "notes.txt".to_string(),
                text: Some("doc name: :skipped,\nsummary: \"No\",\n".to_string()),
            },
        ],
        scales: None,
        chords: None,
    }
}

#[test]
fn a_loaded_vocabulary_is_sorted_and_without_repeats() {
    let vocab = Vocab::load(&sources());
    let all: Vec<&str> = vocab.entries.iter().map(|e| e.label.as_str()).collect();
    let mut sorted = all.clone();
    sorted.sort();
    assert_eq!(all, sorted);
    assert!(all.contains(&":tb303"));
    assert!(all.contains(&":bd_haus"));
    assert!(all.contains(&"play"));
    assert!(all.contains(&":c4"));
    assert!(!all.contains(&"skipped"));
    let mut twice = sources();
    twice.lang.push(twice.lang[0].clone());
    assert_eq!(Vocab::load(&twice).entries.len(), vocab.entries.len());
}

#[test]
fn no_label_comes_twice_in_one_kind() {
    let mut src = sources();
    src.synths = "## A\n:c4\n## B\n:c4\n".to_string();
    src.fx = "## C\n:c4\n".to_string();
    src.sample_files.push("c4.wav".to_string());
    src.sample_files.push("c4.flac".to_string());
    src.chords = Some(":c4 => x\n:m7 => y\n:c4 => z\n".to_string());
    let vocab = Vocab::load(&src);
    let kinds: Vec<VocabKind> =
        vocab.entries.iter().filter(|e| e.label == ":c4").map(|e| e.kind).collect();
    assert_eq!(
        kinds,
        vec![
            VocabKind::Synth,
            VocabKind::Fx,
            VocabKind::Sample,
            VocabKind::Note,
            VocabKind::Chord
        ]
    );
}

#[test]
fn every_kind_has_its_labels() {
    assert_eq!(VocabKind::Fx.plural(), "FX");
    assert_eq!(VocabKind::Func.label(), "fn");
    assert_eq!(VocabKind::ALL.len(), 7);
    assert_eq!(VocabKind::ALL[0], VocabKind::Synth);
}

#[test]
fn the_sources_of_the_vocabulary_lie_in_the_repository() {
    let paths = vocab_paths("/repo/app");
    assert_eq!(paths.synths, "/repo/app/../etc/doc/cheatsheets/synths.md");
    assert_eq!(paths.fx, "/repo/app/../etc/doc/cheatsheets/fx.md");
    assert_eq!(paths.samples, "/repo/app/../etc/samples");
    assert_eq!(paths.lang, "/repo/app/server/ruby/lib/sonicpi/lang");
    assert_eq!(paths.scales, "/repo/app/server/ruby/lib/sonicpi/scale.rb");
    assert_eq!(paths.chords, "/repo/app/server/ruby/lib/sonicpi/chord.rb");
}

#[test]
fn names_and_words_follow_what_counts_as_a_letter() {
    let cs = ['a', 'b', '?', 'c', '!'];
    assert_eq!(leading_name_by(&cs, &[true, true, false, true, false]), "ab?c!");
    assert_eq!(leading_name_by(&cs, &[true, false, false, true, false]), "a");
    let text = [':', 'a', ' ', '_', 'b'];
    let texts = |flags: &[bool]| -> Vec<String> {
        words_by(&text, flags).iter().map(|w| w.iter().collect()).collect()
    };
    assert_eq!(texts(&[false, true, false, false, true]), vec![":a", "_b"]);
    assert_eq!(texts(&[false, false, false, false, true]), vec![":", "", "_b"]);
}

#[test]
fn options_come_from_the_last_known_word() {
    let mut tb303 = VocabEntry::new(":tb303", VocabKind::Synth, "");
    tb303.opt_docs = vec![opt("cutoff:", "100"), opt("res:", "0.9")];
    let vocab = Vocab { entries: vec![tb303, VocabEntry::new(":bd_haus", VocabKind::Sample, "")] };
    let known: Vec<char> = ":tb303".chars().collect();
    let other: Vec<char> = ":bd_haus".chars().collect();
    let words: Vec<&[char]> = vec![&known, &other];
    assert_eq!(
        vocab.options_among(&words, "cu", 10),
        vec![("cutoff:".to_string(), "100".to_string())]
    );
    assert!(vocab.options_among(&words, ":cu", 10).is_empty());
}

#[test]
fn a_cheatsheet_behind_another_adds_its_entries() {
    let second = "## More\n\n### Key:\n  :more\n";
    let both = parse_cheatsheet(&format!("{CHEAT}{second}"), VocabKind::Synth);
    let labels: Vec<&str> = both.iter().map(|e| e.label.as_str()).collect();
    assert_eq!(labels, vec![":dull_bell", ":tb303", ":more"]);
}
