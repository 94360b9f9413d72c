use iced_fonts::emit::{
    assemble_module, generate_from_candidates, generate_module, raw_fragment, shaping_from_name,
    widget_fragment, GenerationConfig, OutputModule, Shaping,
};
use iced_fonts::font::{read_glyphs, FontError};
use iced_fonts::naming::{disallowed, identifier_char, sanitize_name, substitute};
use iced_fonts::registry::NameRegistry;
use iced_fonts::selection::{select_entries, select_with_duplicates, AccessorEntry, GlyphCandidate};

fn chars(s: &str) -> Vec<char> {
    s.chars().collect()
}

fn text(v: &[char]) -> String {
    v.iter().collect()
}

fn sanitize(s: &str) -> Option<String> {
    sanitize_name(&chars(s)).map(|v| text(&v))
}

fn cand(c: char, name: &str) -> GlyphCandidate {
    GlyphCandidate { codepoint: c, raw_name: chars(name) }
}

fn config(advanced: bool) -> GenerationConfig {
    GenerationConfig::new("icons", "ICON_FONT", None, Shaping::Basic, advanced)
}

fn names(m: &OutputModule) -> Vec<String> {
    m.functions.iter().map(|f| text(&f.name)).collect()
}

#[test]
fn plain_names_are_unchanged() {
    assert_eq!(sanitize("heart"), Some("heart".to_string()));
    assert_eq!(sanitize("arrow_up_Right"), Some("arrow_up_Right".to_string()));
}

#[test]
fn empty_and_non_letter_names_are_rejected() {
    assert_eq!(sanitize(""), None);
    assert_eq!(sanitize("\t"), None);
    assert_eq!(sanitize("a\tb"), None);
    assert_eq!(sanitize("ab\u{0}"), None);
    assert_eq!(sanitize("star\u{2605}"), None);
    assert_eq!(sanitize("caf\u{e9}"), Some("caf\u{e9}".to_string()));
    assert_eq!(sanitize("\u{65e5}\u{672c}"), Some("\u{65e5}\u{672c}".to_string()));
    assert!(identifier_char('q') && identifier_char('Q') && identifier_char('_'));
    assert!(!identifier_char('7') && !identifier_char(' ') && !identifier_char('\u{7f}'));
    assert!(identifier_char('\u{3b1}'));
    let m = generate_from_candidates(&config(false), &[cand('a', ""), cand('b', "x y"), cand('c', "ok")]);
    assert_eq!(names(&m), vec!["ok"]);
    assert_eq!(m.count, 1);
}

#[test]
fn digits_become_words() {
    assert_eq!(sanitize("1f600"), Some("onefsixzerozero".to_string()));
    assert_eq!(
        sanitize("0123456789"),
        Some("zeroonetwothreefourfivesixseveneightnine".to_string())
    );
    assert_eq!(text(&substitute(&chars("a2b2"))), "atwobtwo");
}

#[test]
fn hyphen_becomes_underscore() {
    assert_eq!(sanitize("heart-fill"), Some("heart_fill".to_string()));
    assert_eq!(sanitize("a--b"), Some("a__b".to_string()));
}

#[test]
fn lone_underscore_is_spelled_out() {
    assert_eq!(sanitize("-"), Some("underscore".to_string()));
    assert_eq!(sanitize("_"), Some("underscore".to_string()));
    assert_eq!(sanitize("__"), Some("__".to_string()));
    assert_eq!(sanitize("--"), Some("__".to_string()));
    assert_eq!(sanitize("a-"), Some("a_".to_string()));
    assert_eq!(sanitize("underscore"), Some("underscore".to_string()));
}

#[test]
fn disallowed_characters_reject_the_name() {
    assert_eq!(sanitize("file.txt"), None);
    assert_eq!(sanitize(".null"), None);
    assert_eq!(sanitize("a b"), None);
    assert_eq!(sanitize("x\\y"), None);
    assert_eq!(sanitize("plus+"), None);
    for c in "+-*/@!#$%^&()=~`;:\"',<>?. []{}|\\".chars() {
        assert!(disallowed(c), "{c}");
    }
    for c in "aZ_9é".chars() {
        assert!(!disallowed(c), "{c}");
    }
}

#[test]
fn registry_keeps_first_claim_and_counts_repeats() {
    let mut r = NameRegistry::new();
    let star = chars("star");
    assert!(r.claim(&star));
    assert!(!r.claim(&star));
    assert!(!r.claim(&star));
    assert!(r.claim(&chars("moon")));
    assert_eq!(r.times_claimed(&star), 3);
    assert_eq!(r.times_claimed(&chars("moon")), 1);
    assert_eq!(r.times_claimed(&chars("sun")), 0);
    assert_eq!(r.position(&chars("moon")), Some(1));
    assert_eq!(r.position(&chars("sun")), None);
}

#[test]
fn first_of_colliding_glyphs_wins() {
    let entries = select_entries(&[
        cand('\u{e001}', "a-b"),
        cand('\u{e002}', "a_b"),
        cand('\u{e003}', "c"),
    ]);
    assert_eq!(entries.len(), 2);
    assert_eq!(text(&entries[0].name), "a_b");
    assert_eq!(entries[0].codepoint, '\u{e001}');
    assert_eq!(text(&entries[0].raw_name), "a-b");
    assert_eq!(entries[1].codepoint, '\u{e003}');
}

#[test]
fn four_named_glyphs_give_four_accessors() {
    let m = generate_from_candidates(
        &config(false),
        &[
            cand('\u{f101}', "heart"),
            cand('\u{f102}', "heart-fill"),
            cand('\u{f103}', "1"),
            cand('\u{f104}', "unnamed"),
        ],
    );
    assert_eq!(names(&m), vec!["heart", "heart_fill", "one", "unnamed"]);
    assert_eq!(m.count, 4);
    assert_eq!(m.functions[2].glyph, '\u{f103}');
}

#[test]
fn two_stars_give_one_accessor() {
    let m = generate_from_candidates(
        &config(true),
        &[cand('\u{f201}', "star"), cand('\u{f202}', "star")],
    );
    assert_eq!(names(&m), vec!["star"]);
    assert_eq!(m.count, 1);
    assert_eq!(m.functions[0].glyph, '\u{f201}');
    assert_eq!(m.advanced_functions.as_ref().map(|f| f.len()), Some(1));
}

#[test]
fn dotted_name_gives_no_accessor() {
    let m = generate_from_candidates(
        &config(false),
        &[cand('\u{f301}', "file.txt"), cand('\u{f302}', "folder")],
    );
    assert_eq!(names(&m), vec!["folder"]);
    assert_eq!(m.count, 1);
}

#[test]
fn malformed_bytes_are_fatal() {
    assert!(matches!(
        generate_module(&[0u8, 1, 2, 3, 4, 5], &config(false)),
        Err(FontError::MalformedFont)
    ));
    assert!(matches!(generate_module(&[], &config(true)), Err(FontError::MalformedFont)));
    assert!(matches!(read_glyphs(b"not a font at all"), Err(FontError::MalformedFont)));
}

#[test]
fn count_matches_fragments() {
    let cands: Vec<GlyphCandidate> = (0..40u32)
        .map(|i| cand(char::from_u32(0xe000 + i).unwrap(), &format!("g{}", i % 7)))
        .collect();
    let m = generate_from_candidates(&config(true), &cands);
    assert_eq!(m.count, 7);
    assert_eq!(m.functions.len(), m.count);
    assert_eq!(m.advanced_functions.as_ref().unwrap().len(), m.count);
    let plain = generate_from_candidates(&config(false), &cands);
    assert!(plain.advanced_functions.is_none());
    assert_eq!(plain.functions.len(), plain.count);
}

#[test]
fn generation_is_repeatable() {
    let cands = vec![cand('a', "x-1"), cand('b', "x_one"), cand('c', "y")];
    let a = generate_from_candidates(&config(true), &cands);
    let b = generate_from_candidates(&config(true), &cands);
    assert_eq!(names(&a), names(&b));
    assert_eq!(a.count, b.count);
    for (x, y) in a.functions.iter().zip(b.functions.iter()) {
        assert_eq!(x.doc, y.doc);
        assert_eq!(x.glyph, y.glyph);
    }
}

#[test]
fn shaping_words() {
    assert_eq!(shaping_from_name("basic"), Some(Shaping::Basic));
    assert_eq!(shaping_from_name("advanced"), Some(Shaping::Advanced));
    assert_eq!(shaping_from_name("Basic"), None);
    assert_eq!(shaping_from_name(""), None);
}

#[test]
fn doc_texts() {
    let entry = AccessorEntry { name: chars("heart_fill"), codepoint: 'H', raw_name: chars("heart-fill") };
    let w = widget_fragment(&entry, &None);
    assert_eq!(text(&w.doc), " Returns an [`iced_widget::Text`] widget of the H heart_fill icon.");
    let w = widget_fragment(&entry, &Some(chars("https://icons.example/icons")));
    assert_eq!(
        text(&w.doc),
        " Returns an [`iced_widget::Text`] widget of the [H heart_fill](https://icons.example/icons/heart-fill) icon."
    );
    let r = raw_fragment(&entry);
    assert_eq!(text(&r.doc), " Returns the [`String`] of heart_fill character for lower level API's");
    assert_eq!(text(&r.name), "heart_fill");
    let m = assemble_module(&config(false), &vec![entry]);
    assert_eq!(text(&m.doc), "A module with a function for every icon in icons's font.");
    assert_eq!(text(&m.font_reference), "ICON_FONT");
    assert_eq!(m.shaping, Shaping::Basic);
}

#[test]
fn dropped_duplicates_are_reported() {
    let (entries, dups) = select_with_duplicates(&[
        cand('a', "star"),
        cand('b', "file.txt"),
        cand('c', "star"),
        cand('d', "moon-2"),
        cand('e', "moon_two"),
        cand('f', "star"),
    ]);
    let kept: Vec<String> = entries.iter().map(|e| text(&e.name)).collect();
    assert_eq!(kept, vec!["star", "moon_two"]);
    let dropped: Vec<String> = dups.iter().map(|d| text(d)).collect();
    assert_eq!(dropped, vec!["star", "moon_two", "star"]);
    assert_eq!(entries[1].codepoint, 'd');
}
