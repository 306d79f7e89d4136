use sonic_oxide::number::{int_text, nat_from, nat_text};
use sonic_oxide::pathname::{
    file_name, has_extension, join_path, parent, paths_equal, stem_of,
};
use sonic_oxide::paths::{app_root, bundled_root, resolve, SonicPiPath};
use sonic_oxide::text::{
    chars_of, ends_with_text, find_chars, lines_of, split_at_char, string_of, trimmed, unquoted,
    white_space, words_in,
};
use sonic_oxide::utf8::{chars_in_bytes, prefix_bytes, text_bytes};
use std::path::Path;

const SAMPLES: [&str; 14] = [
    "", "a", " a b ", "\n", "a\nb", "a\r\nb\r\n", "\r\n\r\n", "a\n\nb\n", "\u{a0}x\u{3000}", "tab\tsep",
    "é ß\u{2028}q", "x\r", "\"q\"", "one  two\u{85}three",
];

#[test]
fn white_space_is_that_of_the_standard_library() {
    for u in 0..=0x10ffffu32 {
        if let Some(c) = char::from_u32(u) {
            assert_eq!(white_space(c), c.is_whitespace(), "{u:x}");
        }
    }
}

#[test]
fn text_functions_agree_with_the_standard_library() {
    for s in SAMPLES {
        let cs = chars_of(s);
        assert_eq!(string_of(&cs), s);
        assert_eq!(string_of(trimmed(&cs)), s.trim());
        let lines: Vec<String> = lines_of(&cs).into_iter().map(string_of).collect();
        assert_eq!(lines, s.lines().collect::<Vec<_>>(), "{s:?}");
        let words: Vec<String> = words_in(&cs).into_iter().map(string_of).collect();
        assert_eq!(words, s.split_whitespace().collect::<Vec<_>>());
        let pieces: Vec<String> = split_at_char(&cs, '\n').into_iter().map(string_of).collect();
        assert_eq!(pieces, s.split('\n').collect::<Vec<_>>());
        assert_eq!(string_of(unquoted(&cs)), s.trim_matches('"'));
        assert_eq!(ends_with_text(&cs, "b"), s.ends_with("b"));
        let needle = chars_of("b");
        let at = find_chars(&cs, &needle);
        assert_eq!(at.map(|i| prefix_bytes(&cs, i, s.len())), s.find("b"));
        assert_eq!(text_bytes(s), s.len());
        for n in 0..=s.len() {
            let mut k = n;
            while !s.is_char_boundary(k) {
                k -= 1;
            }
            assert_eq!(chars_in_bytes(&cs, n), s[..k].chars().count());
        }
    }
}

const PATHS: [&str; 20] = [
    "", "/", ".", "..", "a", "/a", "a/", "a/b", "/a/b/", "a//b", "./a", "a/.", "a/./b", "a/..", "//a",
    "/a/../b", "a.rb", ".hidden", "x/.hidden.rb", "../app",
];

#[test]
fn path_functions_agree_with_the_standard_library() {
    for p in PATHS {
        let std_path = Path::new(p);
        assert_eq!(
            parent(p),
            std_path.parent().map(|q| q.to_string_lossy().into_owned()),
            "parent of {p:?}"
        );
        assert_eq!(
            file_name(p),
            std_path.file_name().map(|n| n.to_string_lossy().into_owned()),
            "name of {p:?}"
        );
        for q in PATHS {
            assert_eq!(paths_equal(p, q), std_path == Path::new(q), "{p:?} and {q:?}");
            assert_eq!(join_path(p, q), std_path.join(q).to_string_lossy(), "{p:?} with {q:?}");
        }
    }
    for n in ["a.rb", ".rb", "a.b.rb", "a", "a."] {
        assert_eq!(
            has_extension(n, "rb"),
            Path::new(n).extension().map_or(false, |e| e == "rb"),
            "{n}"
        );
        assert_eq!(stem_of(n), Path::new(n).file_stem().unwrap().to_string_lossy(), "{n}");
    }
}

#[test]
fn numbers_agree_with_the_standard_library() {
    for n in [0u64, 7, 10, 999, 65535, u64::MAX] {
        assert_eq!(nat_text(n), n.to_string());
    }
    for n in [0i64, -1, 42, i64::MAX, i64::MIN + 1] {
        assert_eq!(int_text(n), n.to_string());
    }
    for t in ["0", "+5", "007", "255", "256", "-1", "", "+", "1 ", "x", "٣"] {
        assert_eq!(nat_from(&chars_of(t), 255), t.parse::<u8>().ok().map(u64::from), "{t:?}");
    }
}

#[test]
fn the_runtime_is_looked_for_in_order() {
    assert_eq!(bundled_root("/opt/oxide/bin/oxide").as_deref(), Some("/opt/oxide/bin/../app"));
    assert_eq!(app_root(Some("/chosen"), Some("/b"), "/src"), "/chosen");
    assert_eq!(app_root(None, Some("/b"), "/src"), "/b");
    assert_eq!(app_root(None, None, "/src"), "/src/../../app");
    let paths = resolve("/app");
    assert_eq!(paths.get(SonicPiPath::BootDaemon), "/app/server/ruby/bin/daemon.rb");
    assert_eq!(paths.get(SonicPiPath::Samples), "/app/../etc/samples");
}
