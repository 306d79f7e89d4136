use sonic_oxide::editor::runs::word_starts_by;
use sonic_oxide::editor::runs::text_selection;
use sonic_oxide::editor::{byte_to_text_position, line_runs, reindent, toggle_comment, word_starts};

#[test]
fn reindents_do_end_blocks() {
    let messy = "live_loop :drums do\nsample :bd_haus\nif one_in(2)\nplay 60\nelse\nplay 72\nend\n2.times do\nplay 64\nend\nend\n";
    let expect = "live_loop :drums do\n  sample :bd_haus\n  if one_in(2)\n    play 60\n  else\n    play 72\n  end\n  2.times do\n    play 64\n  end\nend\n";
    assert_eq!(reindent(messy), expect);
}

#[test]
fn reindent_ignores_modifier_if_and_comments() {
    let text = "# a comment\nplay 60 if one_in(2)\nsleep 1\n";
    assert_eq!(reindent(text), text);
}

#[test]
fn reindent_handles_do_with_block_args() {
    let messy = "with_fx :reverb do |fx|\ncontrol fx, mix: 0.3\nend";
    let expect = "with_fx :reverb do |fx|\n  control fx, mix: 0.3\nend";
    assert_eq!(reindent(messy), expect);
}

#[test]
fn indenting_again_changes_nothing() {
    let messy = " begin\n\t x\n \nrescue\ny\nend.z\n  end\nend\nend;q\n# do\nwhile a\nb";
    let once = reindent(messy);
    assert_eq!(once, "begin\n  x\n\nrescue\n  y\nend.z\nend\nend\nend;q\n# do\nwhile a\n  b");
    assert_eq!(reindent(&once), once);
}

#[test]
fn comments_and_uncomments_a_block() {
    let text = "play 60\nsleep 1\n";
    let commented = toggle_comment(text, 0..text.len() - 1).unwrap();
    assert_eq!(commented, "# play 60\n# sleep 1\n");
    let back = toggle_comment(&commented, 0..commented.len() - 1).unwrap();
    assert_eq!(back, text);
}

#[test]
fn single_line_at_cursor() {
    let text = "play 60\nsleep 1\n";
    let out = toggle_comment(text, 10..10).unwrap();
    assert_eq!(out, "play 60\n# sleep 1\n");
}

#[test]
fn preserves_indentation_on_uncomment() {
    let text = "  # play 60";
    let out = toggle_comment(text, 0..0).unwrap();
    assert_eq!(out, "  play 60");
}

#[test]
fn blank_lines_are_left_out_of_a_toggle() {
    assert_eq!(toggle_comment("  \n\n", 0..1), None);
    assert_eq!(toggle_comment("", 0..9), None);
    assert_eq!(toggle_comment("a\n\n#b", 0..5).unwrap(), "# a\n\n# #b");
    assert_eq!(toggle_comment("#a\n\n  #  b", 0..99).unwrap(), "a\n\n   b");
    assert_eq!(toggle_comment("a\n\nb", 0..2).unwrap(), "# a\n\nb");
    assert_eq!(toggle_comment("# a\n\nb", 0..4).unwrap(), "a\n\nb");
    assert_eq!(toggle_comment("a\n\n\n", 0..9).unwrap(), "# a\n\n\n");
    assert_eq!(toggle_comment("\n\na\n", 0..4).unwrap(), "\n\n# a\n");
    assert_eq!(toggle_comment("é\nb", 4..1).unwrap(), "é\n# b");
    assert_eq!(toggle_comment("é\nb", 1..1).unwrap(), "# é\nb");
    assert_eq!(toggle_comment("a\r\nb", 0..4).unwrap(), "# a\n# b");
}

#[test]
fn line_runs_cover_the_text_and_count_characters() {
    let text = "play 60\nsleep 0.5\n\n# héllo";
    let runs = line_runs(text);
    assert_eq!(runs.len(), 4);
    assert_eq!(runs[0].value, "play 60\n");
    assert_eq!(runs[2].value, "\n");
    assert_eq!(runs[3].value, "# héllo");
    for run in &runs {
        let sum: usize = run.char_lengths.iter().map(|&b| b as usize).sum();
        assert_eq!(sum, run.value.len(), "run {:?}", run.value);
    }
    assert_eq!(runs[3].char_lengths, vec![1, 1, 1, 2, 1, 1, 1]);
    let all: String = runs.iter().map(|r| r.value.as_str()).collect();
    assert_eq!(all, text);
    assert_eq!(line_runs("").len(), 1);
}

#[test]
fn word_starts_are_code_shaped() {
    assert_eq!(word_starts("play :bd_haus\n"), vec![0, 5, 6]);
    assert_eq!(word_starts("  play 60\n"), vec![0, 2, 7]);
}

#[test]
fn word_starts_stop_where_a_byte_does() {
    let long = "a ".repeat(200);
    let starts = word_starts(&long);
    assert_eq!(starts.len(), 128);
    assert_eq!(*starts.last().unwrap(), 254);
    assert_eq!(word_starts("é+ß"), vec![0, 1, 2]);
    assert!(word_starts("").is_empty());
}

#[test]
fn byte_offsets_map_to_line_and_character_positions() {
    let text = "play 60\nsleep 1";
    assert_eq!(byte_to_text_position(text, 0), (0, 0));
    assert_eq!(byte_to_text_position(text, 4), (0, 4));
    assert_eq!(byte_to_text_position(text, 7), (0, 7));
    assert_eq!(byte_to_text_position(text, 8), (1, 0));
    assert_eq!(byte_to_text_position(text, text.len()), (1, 7));
    assert_eq!(byte_to_text_position(text, 999), (1, 7));
    assert_eq!(byte_to_text_position("hé\nx", 3), (0, 2));
}

#[test]
fn a_selection_has_its_caret_for_focus() {
    let text = "ab\ncd";
    assert_eq!(text_selection(text, 1..4, 4, 2), Some(((0, 1), (1, 1))));
    assert_eq!(text_selection(text, 1..4, 1, 2), Some(((1, 1), (0, 1))));
    assert_eq!(text_selection(text, 1..4, 4, 1), None);
}

#[test]
fn words_follow_what_counts_as_a_letter() {
    let cs = ['a', 'x', ' ', 'b', '.', '_'];
    let letters = [true, true, false, true, false, false];
    assert_eq!(word_starts_by(&cs, &letters), vec![0, 3, 4, 5]);
    assert_eq!(word_starts_by(&cs, &[false; 6]), vec![0, 3, 5]);
    assert_eq!(word_starts_by(&[], &[]), Vec::<u8>::new());
}
