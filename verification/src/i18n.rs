//! Translations of the interface texts, by their English form.

use crate::pathname::{join_path, path_join};
use crate::table::{lemma_map_push, pairs_map, Table};
use crate::text::{
    begins_with_text, blank, chars_of, is_white_space, lacks, law_trim_padded, lemma_index_of_is,
    lines, lines_of, no_outer_space, same_text, split_once, split_once_at, string_of, trim,
    trimmed, views,
};
use vstd::prelude::*;
use vstd::slice::slice_subrange;
use vstd::string::*;

verus! {

/// A translation table. English is the empty one.
pub struct I18n {
    pub table: Table,
}

/// The pair that a line of a translation file holds. Comments, and lines with an
/// empty side, hold none.
pub open spec fn translation_of_line(line: Seq<char>) -> Option<(Seq<char>, Seq<char>)> {
    let t = trim(line);
    if t.len() == 0 || "#"@.is_prefix_of(t) {
        None
    } else {
        match split_once(t, '=') {
            Some((k, v)) => if trim(k).len() > 0 && trim(v).len() > 0 {
                Some((trim(k), trim(v)))
            } else {
                None
            },
            None => None,
        }
    }
}

/// The translations in a text: the last one of a key counts.
pub open spec fn translations(text: Seq<char>) -> Map<Seq<char>, Seq<char>> {
    pairs_map(lines(text).filter_map(|line: Seq<char>| translation_of_line(line)))
}

/// Reads a translation file (`english = translated` lines).
pub fn parse_table(text: &str) -> (r: Table)
    ensures
        r@ == translations(text@),
{
    let cs: Vec<char> = chars_of(text);
    let ls: Vec<&[char]> = lines_of(cs.as_slice());
    let ghost all = lines(text@);
    let ghost f = |line: Seq<char>| translation_of_line(line);
    let mut table: Table = Table::new();
    let mut i: usize = 0;
    assert(all.take(0).filter_map(f) =~= seq![]);
    while i < ls.len()
        invariant
            i <= ls@.len(),
            views(ls@) == all,
            f == (|line: Seq<char>| translation_of_line(line)),
            table@ == pairs_map(all.take(i as int).filter_map(f)),
        decreases ls@.len() - i,
    {
        let ghost before = all.take(i as int).filter_map(f);
        proof {
            all.lemma_filter_map_take_succ(f, i as int);
            assert(before + seq![] =~= before);
        }
        let t: &[char] = trimmed(ls[i]);
        if t.len() > 0 && !begins_with_text(t, "#") {
            match split_once_at(t, '=') {
                Some((k, v)) => {
                    let key: &[char] = trimmed(k);
                    let value: &[char] = trimmed(v);
                    if key.len() > 0 && value.len() > 0 {
                        table = table.insert(string_of(key), string_of(value));
                        proof {
                            lemma_map_push(before, key@, value@);
                        }
                    }
                },
                None => {},
            }
        }
        i = i + 1;
    }
    assert(all.take(i as int) =~= all);
    table
}

/// The translation of an English text, or that text where there is none.
pub open spec fn translated(table: Map<Seq<char>, Seq<char>>, english: Seq<char>) -> Seq<char> {
    if table.dom().contains(english) {
        table[english]
    } else {
        english
    }
}

/// The index of the first underscore or dot in `s`, or the length of `s`.
pub open spec fn locale_end(s: Seq<char>) -> int
    decreases s.len(),
{
    if s.len() == 0 || s[0] == '_' || s[0] == '.' {
        0
    } else {
        1 + locale_end(s.drop_first())
    }
}

/// The language to use: the explicit choice if it is not empty, else the language
/// of the locale, else English.
pub open spec fn language(choice: Option<Seq<char>>, locale: Option<Seq<char>>) -> Seq<char> {
    if choice is Some && choice->0.len() > 0 {
        choice->0
    } else if locale is Some && locale_end(locale->0) > 0 {
        locale->0.take(locale_end(locale->0))
    } else {
        "en"@
    }
}

pub open spec fn optional_view(t: Option<&str>) -> Option<Seq<char>> {
    match t {
        Some(s) => Some(s@),
        None => None,
    }
}

fn find_locale_end(cs: &[char]) -> (r: usize)
    ensures
        r == locale_end(cs@),
        r <= cs@.len(),
{
    let mut i: usize = 0;
    assert(cs@.skip(0) =~= cs@);
    while i < cs.len() && cs[i] != '_' && cs[i] != '.'
        invariant
            i <= cs@.len(),
            locale_end(cs@) == i + locale_end(cs@.skip(i as int)),
        decreases cs@.len() - i,
    {
        assert(cs@.skip(i as int).drop_first() =~= cs@.skip(i + 1));
        i = i + 1;
    }
    i
}

impl I18n {
    /// The user's language, from the explicit choice and the locale in the
    /// environment.
    pub fn detect_lang(choice: Option<&str>, locale: Option<&str>) -> (r: String)
        ensures
            r@ == language(optional_view(choice), optional_view(locale)),
    {
        match choice {
            Some(c) => {
                if !c.is_empty() {
                    return String::from_str(c);
                }
            },
            None => {},
        }
        match locale {
            Some(l) => {
                let cs: Vec<char> = chars_of(l);
                let n: usize = find_locale_end(cs.as_slice());
                if n > 0 {
                    let lang: &[char] = slice_subrange(cs.as_slice(), 0, n);
                    assert(lang@ =~= l@.take(n as int));
                    return string_of(lang);
                }
            },
            None => {},
        }
        String::from_str("en")
    }

    /// Where the translations of a language are.
    pub fn conf_path(dir: &str, lang: &str) -> (r: String)
        ensures
            r@ == path_join(dir@, lang@ + ".conf"@),
    {
        let name: String = String::from_str(lang).concat(".conf");
        join_path(dir, name.as_str())
    }

    /// The translations of a language, `text` being what its file holds: nothing
    /// for a file that cannot be read.
    pub fn load(lang: &str, text: &str) -> (r: I18n)
        ensures
            r.table@ == (if lang@ == "en"@ {
                Map::<Seq<char>, Seq<char>>::empty()
            } else {
                translations(text@)
            }),
    {
        if same_text(lang, "en") {
            I18n { table: Table::new() }
        } else {
            I18n { table: parse_table(text) }
        }
    }

    /// The translation of an English text, or that text.
    pub fn tr<'a>(&'a self, english: &'a str) -> (r: &'a str)
        ensures
            r@ == translated(self.table@, english@),
    {
        match self.table.get(english) {
            Some(t) => t.as_str(),
            None => english,
        }
    }
}

/// English needs no translation: every text stands for itself.
pub proof fn law_english_is_identity(i18n: I18n, english: Seq<char>)
    requires
        i18n.table@ == Map::<Seq<char>, Seq<char>>::empty(),
    ensures
        translated(i18n.table@, english) == english,
{
}

/// A line `english = translated` translates its left side to its right side; what
/// stands behind the first equals sign is all the translation.
pub proof fn law_translations_are_read(
    english: Seq<char>,
    other: Seq<char>,
    gaps: (Seq<char>, Seq<char>),
)
    requires
        english.len() > 0 && no_outer_space(english) && lacks(english, '='),
        english[0] != '#',
        other.len() > 0 && no_outer_space(other),
        blank(gaps.0) && blank(gaps.1),
        lacks(english, '\n') && lacks(other, '\n') && lacks(gaps.0, '\n') && lacks(gaps.1, '\n'),
    ensures
        translated(
            translations(english + gaps.0 + seq!['='] + gaps.1 + other),
            english,
        ) == other,
        translations(english + gaps.0 + seq!['='] + gaps.1 + other).dom() =~= set![english],
{
    let line = english + gaps.0 + seq!['='] + gaps.1 + other;
    let none = Seq::<char>::empty();
    assert(line[0] == english[0] && line.last() == other.last());
    assert(none + line + none =~= line);
    law_trim_padded(none, line, none);
    reveal_strlit("#");
    if "#"@.is_prefix_of(line) {
        assert("#"@[0] == line.subrange(0, 1)[0]);
    }
    let e = (english.len() + gaps.0.len()) as int;
    assert(line[e] == '=');
    assert forall|j: int| 0 <= j < e implies line[j] != '=' by {
        if j < english.len() {
            assert(line[j] == english[j]);
        } else {
            assert(line[j] == gaps.0[j - english.len()]);
            assert(is_white_space(gaps.0[j - english.len()]));
        }
    }
    lemma_index_of_is(line, '=', e);
    assert(line.take(e) =~= none + english + gaps.0);
    assert(line.skip(e + 1) =~= gaps.1 + other + none);
    law_trim_padded(none, english, gaps.0);
    law_trim_padded(gaps.1, other, none);
    assert(translation_of_line(line) == Some((english, other)));
    assert forall|j: int| 0 <= j < line.len() implies line[j] != '\n' by {
        let head = english + gaps.0 + seq!['='];
        assert(lacks(head, '\n'));
        assert(lacks(head + gaps.1, '\n'));
        assert(lacks(line, '\n'));
    }
    lemma_index_of_is(line, '\n', line.len() as int);
    assert(lines(line) =~= seq![line]);
    let f = |l: Seq<char>| translation_of_line(l);
    reveal_with_fuel(Seq::filter_map, 2);
    assert(seq![line].drop_last() =~= Seq::<Seq<char>>::empty());
    assert(seq![line].last() == line);
    assert(seq![line].filter_map(f) =~= seq![(english, other)]);
    let ps = seq![(english, other)];
    assert(ps.drop_last() =~= Seq::<(Seq<char>, Seq<char>)>::empty());
    reveal_with_fuel(pairs_map, 2);
}

/// A text that has a translation is shown by it, and one that has none by itself.
pub proof fn law_untranslated_texts_stay(
    table: Map<Seq<char>, Seq<char>>,
    english: Seq<char>,
    other: Seq<char>,
)
    ensures
        translated(table.insert(english, other), english) == other,
        translated(table.remove(english), english) == english,
{
}

/// A choice of language counts before the locale, of which the part before the first
/// underscore or dot is the language; without either it is English.
pub proof fn law_language_is_chosen(
    choice: Seq<char>,
    lang: Seq<char>,
    rest: Seq<char>,
    locale: Option<Seq<char>>,
)
    requires
        choice.len() > 0,
        lang.len() > 0,
        lacks(lang, '_') && lacks(lang, '.'),
        rest.len() > 0 ==> rest[0] == '_' || rest[0] == '.',
    ensures
        language(Some(choice), locale) == choice,
        language(None, Some(lang + rest)) == lang,
        language(Some(seq![]), Some(lang + rest)) == lang,
        language(None, None) == "en"@,
        language(None, Some(seq![])) == "en"@,
{
    lemma_locale_end(lang, rest);
    assert((lang + rest).take(lang.len() as int) =~= lang);
}

proof fn lemma_locale_end(lang: Seq<char>, rest: Seq<char>)
    requires
        lacks(lang, '_') && lacks(lang, '.'),
        rest.len() > 0 ==> rest[0] == '_' || rest[0] == '.',
    ensures
        locale_end(lang + rest) == lang.len(),
    decreases lang.len(),
{
    let s = lang + rest;
    if lang.len() > 0 {
        let t = lang.drop_first();
        assert(s[0] == lang[0]);
        assert forall|i: int| 0 <= i < t.len() implies #[trigger] t[i] != '_' && t[i] != '.' by {
            assert(t[i] == lang[i + 1]);
        }
        assert(s.drop_first() =~= t + rest);
        lemma_locale_end(t, rest);
    } else {
        assert(s =~= rest);
    }
}

} // verus!
