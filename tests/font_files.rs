use iced_fonts::emit::{generate_module, GenerationConfig, Shaping};
use iced_fonts::font::{read_glyphs, FontError};

fn u16be(v: &mut Vec<u8>, x: u16) {
    v.extend_from_slice(&x.to_be_bytes());
}

fn u32be(v: &mut Vec<u8>, x: u32) {
    v.extend_from_slice(&x.to_be_bytes());
}

fn head() -> Vec<u8> {
    let mut t = Vec::new();
    u32be(&mut t, 0x0001_0000); // version
    u32be(&mut t, 0x0001_0000); // revision
    u32be(&mut t, 0); // checksum adjustment
    u32be(&mut t, 0x5F0F_3CF5); // magic
    u16be(&mut t, 0); // flags
    u16be(&mut t, 1000); // units per em
    t.extend_from_slice(&[0u8; 16]); // created, modified
    t.extend_from_slice(&[0u8; 8]); // bounding box
    u16be(&mut t, 0); // mac style
    u16be(&mut t, 8); // lowest ppem
    u16be(&mut t, 2); // direction hint
    u16be(&mut t, 0); // index to location format
    u16be(&mut t, 0); // glyph data format
    t
}

fn hhea() -> Vec<u8> {
    let mut t = Vec::new();
    u32be(&mut t, 0x0001_0000);
    t.extend_from_slice(&[0u8; 30]);
    u16be(&mut t, 1); // number of metrics
    t
}

fn maxp(glyphs: u16) -> Vec<u8> {
    let mut t = Vec::new();
    u32be(&mut t, 0x0000_5000);
    u16be(&mut t, glyphs);
    t
}

/// A post table naming glyphs 1.. in order; `None`s may only come last, as
/// glyphs past the index array have no name.
fn post(names: &[Option<&str>]) -> Vec<u8> {
    let named: Vec<&str> = names.iter().filter_map(|n| *n).collect();
    let mut t = Vec::new();
    u32be(&mut t, 0x0002_0000);
    t.extend_from_slice(&[0u8; 28]);
    u16be(&mut t, 1 + named.len() as u16);
    u16be(&mut t, 0); // .notdef
    for k in 0..named.len() {
        u16be(&mut t, 258 + k as u16);
    }
    for n in &named {
        t.push(n.len() as u8);
        t.extend_from_slice(n.as_bytes());
    }
    t
}

/// A format 12 subtable: first a group for a surrogate codepoint, then one
/// mapping U+E000.. to glyphs 1.. in order.
fn format12(glyphs: u32) -> Vec<u8> {
    let mut t = Vec::new();
    u16be(&mut t, 12);
    u16be(&mut t, 0);
    u32be(&mut t, 16 + 24);
    u32be(&mut t, 0);
    u32be(&mut t, 2);
    for (start, end, gid) in [(0xD800, 0xD800, 1), (0xE000, 0xE000 + glyphs - 1, 1)] {
        u32be(&mut t, start);
        u32be(&mut t, end);
        u32be(&mut t, gid);
    }
    t
}

/// A cmap whose subtables all point at one format 12 subtable, with the
/// given (platform, encoding) records.
fn cmap(records: &[(u16, u16)], glyphs: u32) -> Vec<u8> {
    let mut t = Vec::new();
    u16be(&mut t, 0);
    u16be(&mut t, records.len() as u16);
    let offset = 4 + 8 * records.len() as u32;
    for (platform, encoding) in records {
        u16be(&mut t, *platform);
        u16be(&mut t, *encoding);
        u32be(&mut t, offset);
    }
    t.extend_from_slice(&format12(glyphs));
    t
}

fn font(tables: Vec<(&[u8; 4], Vec<u8>)>) -> Vec<u8> {
    let mut out = Vec::new();
    u32be(&mut out, 0x0001_0000);
    u16be(&mut out, tables.len() as u16);
    out.extend_from_slice(&[0u8; 6]);
    let mut offset = 12 + 16 * tables.len() as u32;
    for (tag, data) in &tables {
        out.extend_from_slice(*tag);
        u32be(&mut out, 0);
        u32be(&mut out, offset);
        u32be(&mut out, data.len() as u32);
        offset += ((data.len() + 3) / 4 * 4) as u32;
    }
    for (_, data) in &tables {
        out.extend_from_slice(data);
        while out.len() % 4 != 0 {
            out.push(0);
        }
    }
    out
}

/// A cmap whose first record is Unicode but points at a subtable of an
/// unknown format, and whose second is a readable Unicode subtable.
fn cmap_with_unreadable_first(glyphs: u32) -> Vec<u8> {
    let mut t = Vec::new();
    u16be(&mut t, 0);
    u16be(&mut t, 2);
    let bad = 4 + 8 * 2;
    let good = bad + 4;
    for (encoding, offset) in [(3u16, bad), (4u16, good)] {
        u16be(&mut t, 0);
        u16be(&mut t, encoding);
        u32be(&mut t, offset);
    }
    u16be(&mut t, 99);
    u16be(&mut t, 0);
    t.extend_from_slice(&format12(glyphs));
    t
}

/// An icon font mapping U+E000.. to glyphs with the given names, behind a
/// non-Unicode subtable that comes first.
fn icon_font(names: &[Option<&str>]) -> Vec<u8> {
    let n = names.len() as u32;
    font(vec![
        (b"cmap", cmap(&[(1, 0), (0, 4)], n)),
        (b"head", head()),
        (b"hhea", hhea()),
        (b"maxp", maxp(1 + n as u16)),
        (b"post", post(names)),
    ])
}

fn config() -> GenerationConfig {
    GenerationConfig::new("icons", "ICON_FONT", Some("https://example.org/icons"), Shaping::Advanced, true)
}

fn text(v: &[char]) -> String {
    v.iter().collect()
}

#[test]
fn reads_names_of_mapped_glyphs() {
    let data = icon_font(&[Some("heart"), Some("heart-fill"), Some("1"), None]);
    let glyphs = read_glyphs(&data).unwrap();
    let got: Vec<(char, String)> = glyphs.iter().map(|g| (g.codepoint, text(&g.raw_name))).collect();
    assert_eq!(
        got,
        vec![
            ('\u{e000}', "heart".to_string()),
            ('\u{e001}', "heart-fill".to_string()),
            ('\u{e002}', "1".to_string()),
            ('\u{e003}', "unnamed".to_string()),
        ]
    );
}

#[test]
fn font_with_four_glyphs_gives_four_accessors() {
    let data = icon_font(&[Some("heart"), Some("heart-fill"), Some("1"), None]);
    let m = generate_module(&data, &config()).unwrap();
    let names: Vec<String> = m.functions.iter().map(|f| text(&f.name)).collect();
    assert_eq!(names, vec!["heart", "heart_fill", "one", "unnamed"]);
    assert_eq!(m.count, 4);
    assert_eq!(m.advanced_functions.as_ref().unwrap().len(), 4);
    assert_eq!(
        text(&m.functions[1].doc),
        " Returns an [`iced_widget::Text`] widget of the [\u{e001} heart_fill](https://example.org/icons/heart-fill) icon."
    );
}

#[test]
fn font_with_two_stars_gives_one_accessor() {
    let data = icon_font(&[Some("star"), Some("star")]);
    let m = generate_module(&data, &config()).unwrap();
    assert_eq!(m.count, 1);
    assert_eq!(text(&m.functions[0].name), "star");
    assert_eq!(m.functions[0].glyph, '\u{e000}');
}

#[test]
fn font_with_dotted_name_drops_it() {
    let data = icon_font(&[Some("file.txt"), Some("folder")]);
    let m = generate_module(&data, &config()).unwrap();
    assert_eq!(m.count, 1);
    assert_eq!(text(&m.functions[0].name), "folder");
    assert_eq!(m.functions[0].glyph, '\u{e001}');
}

#[test]
fn font_without_unicode_map_is_fatal() {
    let only_mac = font(vec![
        (b"cmap", cmap(&[(1, 0)], 1)),
        (b"head", head()),
        (b"hhea", hhea()),
        (b"maxp", maxp(2)),
        (b"post", post(&[Some("a")])),
    ]);
    assert!(matches!(read_glyphs(&only_mac), Err(FontError::MissingCharacterMap)));
    let no_cmap = font(vec![
        (b"head", head()),
        (b"hhea", hhea()),
        (b"maxp", maxp(2)),
        (b"post", post(&[Some("a")])),
    ]);
    assert!(matches!(generate_module(&no_cmap, &config()), Err(FontError::MissingCharacterMap)));
}

#[test]
fn font_without_head_is_malformed() {
    let data = font(vec![(b"cmap", cmap(&[(0, 4)], 1)), (b"hhea", hhea()), (b"maxp", maxp(2))]);
    assert!(matches!(read_glyphs(&data), Err(FontError::MalformedFont)));
}

#[test]
fn same_bytes_give_same_module() {
    let data = icon_font(&[Some("a-1"), Some("a_one"), Some("b")]);
    let x = generate_module(&data, &config()).unwrap();
    let y = generate_module(&data, &config()).unwrap();
    assert_eq!(x.count, y.count);
    assert_eq!(x.doc, y.doc);
    assert_eq!(x.functions.len(), y.functions.len());
    for (p, q) in x.functions.iter().zip(y.functions.iter()) {
        assert_eq!((&p.name, p.glyph, &p.doc), (&q.name, q.glyph, &q.doc));
    }
    assert_eq!(x.count, 2);
}

#[test]
fn unreadable_subtable_is_passed_over() {
    let data = font(vec![
        (b"cmap", cmap_with_unreadable_first(2)),
        (b"head", head()),
        (b"hhea", hhea()),
        (b"maxp", maxp(3)),
        (b"post", post(&[Some("sun"), Some("moon")])),
    ]);
    // The search for a Unicode subtable goes past the unreadable one, so the
    // font is read; the face's own glyph lookup stops at it, so no codepoint
    // maps to a glyph.
    let glyphs = read_glyphs(&data).unwrap();
    assert!(glyphs.is_empty());
    let m = generate_module(&data, &config()).unwrap();
    assert_eq!(m.count, 0);
}
