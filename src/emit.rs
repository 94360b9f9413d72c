//! Accessor fragments and the output module of one generation pass.
use vstd::prelude::*;
use crate::font::{FontError, font_glyphs, read_glyphs};
use crate::selection::{
    AccessorEntry, GlyphCandidate, candidates_view, entries_view, kept, select_entries,
};
use crate::text::{chars_of, push_chars, push_str, same_str};

verus! {

/// The text-shaping mode that every accessor of a pass carries.
#[derive(Clone, Copy, Debug, PartialEq, Eq, Structural)]
pub enum Shaping {
    Basic,
    Advanced,
}

/// The shaping mode that a configuration word names: "basic" or "advanced".
pub open spec fn shaping_named(name: Seq<char>) -> Option<Shaping> {
    if name == "basic"@ {
        Some(Shaping::Basic)
    } else if name == "advanced"@ {
        Some(Shaping::Advanced)
    } else {
        None
    }
}

/// The shaping mode that `name` selects, or `None` for any other word.
pub fn shaping_from_name(name: &str) -> (r: Option<Shaping>)
    ensures
        r == shaping_named(name@),
{
    if same_str(name, "basic") {
        Some(Shaping::Basic)
    } else if same_str(name, "advanced") {
        Some(Shaping::Advanced)
    } else {
        None
    }
}

/// What a generation pass is asked for.
pub struct GenerationConfig {
    /// The name of the output module.
    pub module_name: Vec<char>,
    /// The symbol of the font that every accessor refers to.
    pub font_reference: Vec<char>,
    /// Where each icon is documented: the raw glyph name is appended to it.
    pub doc_link: Option<Vec<char>>,
    pub shaping: Shaping,
    /// Whether the module also holds the raw-content accessors.
    pub advanced_surface: bool,
}

/// The content of a configuration.
pub struct ConfigModel {
    pub module_name: Seq<char>,
    pub font_reference: Seq<char>,
    pub doc_link: Option<Seq<char>>,
    pub shaping: Shaping,
    pub advanced_surface: bool,
}

/// The view of an optional character vector.
pub open spec fn opt_view(o: Option<Vec<char>>) -> Option<Seq<char>> {
    match o {
        Some(v) => Some(v@),
        None => None,
    }
}

impl View for GenerationConfig {
    type V = ConfigModel;

    open spec fn view(&self) -> ConfigModel {
        ConfigModel {
            module_name: self.module_name@,
            font_reference: self.font_reference@,
            doc_link: opt_view(self.doc_link),
            shaping: self.shaping,
            advanced_surface: self.advanced_surface,
        }
    }
}

impl GenerationConfig {
    /// A configuration from its parts.
    pub fn new(
        module_name: &str,
        font_reference: &str,
        doc_link: Option<&str>,
        shaping: Shaping,
        advanced_surface: bool,
    ) -> (r: GenerationConfig)
        ensures
            r.module_name@ == module_name@,
            r.font_reference@ == font_reference@,
            r.doc_link matches Some(l) ==> doc_link matches Some(d) && l@ == d@,
            r.doc_link is None <==> doc_link is None,
            r.shaping == shaping,
            r.advanced_surface == advanced_surface,
    {
        let link = match doc_link {
            Some(d) => Some(chars_of(d)),
            None => None,
        };
        GenerationConfig {
            module_name: chars_of(module_name),
            font_reference: chars_of(font_reference),
            doc_link: link,
            shaping,
            advanced_surface,
        }
    }
}

/// One accessor of the output: its identifier, its glyph and its doc text.
pub struct Fragment {
    pub name: Vec<char>,
    pub glyph: char,
    pub doc: Vec<char>,
}

impl View for Fragment {
    type V = (Seq<char>, char, Seq<char>);

    open spec fn view(&self) -> (Seq<char>, char, Seq<char>) {
        (self.name@, self.glyph, self.doc@)
    }
}

/// The views of a sequence of fragments.
pub open spec fn fragments_view(f: Seq<Fragment>) -> Seq<(Seq<char>, char, Seq<char>)> {
    f.map_values(|x: Fragment| x@)
}

/// The doc text of a widget accessor: the glyph and its identifier, linked
/// to the icon's page where a documentation link is given.
pub open spec fn widget_doc(e: (Seq<char>, char, Seq<char>), link: Option<Seq<char>>) -> Seq<char> {
    match link {
        Some(l) => " Returns an [`iced_widget::Text`] widget of the ["@ + seq![e.1] + " "@ + e.0
            + "]("@ + l + "/"@ + e.2 + ") icon."@,
        None => " Returns an [`iced_widget::Text`] widget of the "@ + seq![e.1] + " "@ + e.0
            + " icon."@,
    }
}

/// The doc text of a raw-content accessor.
pub open spec fn raw_doc(e: (Seq<char>, char, Seq<char>)) -> Seq<char> {
    " Returns the [`String`] of "@ + e.0 + " character for lower level API's"@
}

/// The doc text of the output module.
pub open spec fn module_doc(module_name: Seq<char>) -> Seq<char> {
    "A module with a function for every icon in "@ + module_name + "'s font."@
}

/// The widget accessors of a sequence of entries.
pub open spec fn widget_fragments(
    e: Seq<(Seq<char>, char, Seq<char>)>,
    link: Option<Seq<char>>,
) -> Seq<(Seq<char>, char, Seq<char>)> {
    e.map_values(|x: (Seq<char>, char, Seq<char>)| (x.0, x.1, widget_doc(x, link)))
}

/// The raw-content accessors of a sequence of entries.
pub open spec fn raw_fragments(e: Seq<(Seq<char>, char, Seq<char>)>) -> Seq<(Seq<char>, char, Seq<char>)> {
    e.map_values(|x: (Seq<char>, char, Seq<char>)| (x.0, x.1, raw_doc(x)))
}

/// The widget accessor of one entry.
pub fn widget_fragment(entry: &AccessorEntry, doc_link: &Option<Vec<char>>) -> (r: Fragment)
    ensures
        r@ == (entry.name@, entry.codepoint, widget_doc(entry@, opt_view(*doc_link))),
{
    let mut doc: Vec<char> = Vec::new();
    match doc_link {
        Some(link) => {
            push_str(&mut doc, " Returns an [`iced_widget::Text`] widget of the [");
            doc.push(entry.codepoint);
            push_str(&mut doc, " ");
            push_chars(&mut doc, entry.name.as_slice());
            push_str(&mut doc, "](");
            push_chars(&mut doc, link.as_slice());
            push_str(&mut doc, "/");
            push_chars(&mut doc, entry.raw_name.as_slice());
            push_str(&mut doc, ") icon.");
        },
        None => {
            push_str(&mut doc, " Returns an [`iced_widget::Text`] widget of the ");
            doc.push(entry.codepoint);
            push_str(&mut doc, " ");
            push_chars(&mut doc, entry.name.as_slice());
            push_str(&mut doc, " icon.");
        },
    }
    assert(doc@ =~= widget_doc(entry@, opt_view(*doc_link)));
    Fragment { name: entry.name.clone(), glyph: entry.codepoint, doc }
}

/// The raw-content accessor of one entry.
pub fn raw_fragment(entry: &AccessorEntry) -> (r: Fragment)
    ensures
        r@ == (entry.name@, entry.codepoint, raw_doc(entry@)),
{
    let mut doc: Vec<char> = Vec::new();
    push_str(&mut doc, " Returns the [`String`] of ");
    push_chars(&mut doc, entry.name.as_slice());
    push_str(&mut doc, " character for lower level API's");
    assert(doc@ =~= raw_doc(entry@));
    Fragment { name: entry.name.clone(), glyph: entry.codepoint, doc }
}

/// The assembled output of one generation pass.
pub struct OutputModule {
    pub module_name: Vec<char>,
    pub font_reference: Vec<char>,
    pub doc: Vec<char>,
    pub shaping: Shaping,
    /// The number of accessors.
    pub count: usize,
    /// The widget accessors, in the order of the font's character map.
    pub functions: Vec<Fragment>,
    /// The raw-content accessors, where the advanced surface is asked for.
    pub advanced_functions: Option<Vec<Fragment>>,
}

/// The content of an output module.
pub struct ModuleModel {
    pub module_name: Seq<char>,
    pub font_reference: Seq<char>,
    pub doc: Seq<char>,
    pub shaping: Shaping,
    pub count: nat,
    pub functions: Seq<(Seq<char>, char, Seq<char>)>,
    pub advanced_functions: Option<Seq<(Seq<char>, char, Seq<char>)>>,
}

impl View for OutputModule {
    type V = ModuleModel;

    open spec fn view(&self) -> ModuleModel {
        ModuleModel {
            module_name: self.module_name@,
            font_reference: self.font_reference@,
            doc: self.doc@,
            shaping: self.shaping,
            count: self.count as nat,
            functions: fragments_view(self.functions@),
            advanced_functions: match self.advanced_functions {
                Some(f) => Some(fragments_view(f@)),
                None => None,
            },
        }
    }
}

/// The module that a configuration and the kept entries make.
pub open spec fn assembled(cfg: ConfigModel, e: Seq<(Seq<char>, char, Seq<char>)>) -> ModuleModel {
    ModuleModel {
        module_name: cfg.module_name,
        font_reference: cfg.font_reference,
        doc: module_doc(cfg.module_name),
        shaping: cfg.shaping,
        count: e.len(),
        functions: widget_fragments(e, cfg.doc_link),
        advanced_functions: if cfg.advanced_surface {
            Some(raw_fragments(e))
        } else {
            None
        },
    }
}

/// The module of a whole pass over candidates: sanitize, drop collisions,
/// assemble.
pub open spec fn generation_from(cfg: ConfigModel, c: Seq<(char, Seq<char>)>) -> ModuleModel {
    assembled(cfg, kept(c))
}

/// The outcome of a whole pass over a font's bytes.
pub open spec fn generation(data: Seq<u8>, cfg: ConfigModel) -> Result<ModuleModel, FontError> {
    match font_glyphs(data) {
        Ok(c) => Ok(generation_from(cfg, c)),
        Err(e) => Err(e),
    }
}

/// The view of the outcome of a pass.
pub open spec fn outcome_view(r: Result<OutputModule, FontError>) -> Result<ModuleModel, FontError> {
    match r {
        Ok(m) => Ok(m@),
        Err(e) => Err(e),
    }
}

/// Assembles the module of a configuration and the kept entries.
pub fn assemble_module(config: &GenerationConfig, entries: &Vec<AccessorEntry>) -> (r: OutputModule)
    ensures
        r@ == assembled(config@, entries_view(entries@)),
        r.count == r.functions@.len(),
{
    let ghost e = entries_view(entries@);
    let mut functions: Vec<Fragment> = Vec::new();
    let mut raws: Vec<Fragment> = Vec::new();
    let mut i: usize = 0;
    while i < entries.len()
        invariant
            i <= entries@.len(),
            e == entries_view(entries@),
            fragments_view(functions@) == widget_fragments(e.subrange(0, i as int), config@.doc_link),
            fragments_view(raws@) == raw_fragments(e.subrange(0, i as int)),
        decreases entries.len() - i,
    {
        let w = widget_fragment(&entries[i], &config.doc_link);
        let r = raw_fragment(&entries[i]);
        let ghost fw = fragments_view(functions@);
        let ghost fr = fragments_view(raws@);
        functions.push(w);
        raws.push(r);
        proof {
            let sub = e.subrange(0, i + 1);
            assert(e[i as int] == entries@[i as int]@);
            assert(sub[i as int] == e[i as int]);
            assert(fragments_view(functions@) =~= fw.push(w@));
            assert(fragments_view(raws@) =~= fr.push(r@));
            assert(widget_fragments(sub, config@.doc_link) =~= widget_fragments(
                e.subrange(0, i as int),
                config@.doc_link,
            ).push(w@));
            assert(raw_fragments(sub) =~= raw_fragments(e.subrange(0, i as int)).push(r@));
        }
        i = i + 1;
    }
    assert(e.subrange(0, e.len() as int) =~= e);
    let mut doc: Vec<char> = Vec::new();
    push_str(&mut doc, "A module with a function for every icon in ");
    push_chars(&mut doc, config.module_name.as_slice());
    push_str(&mut doc, "'s font.");
    assert(doc@ =~= module_doc(config@.module_name));
    let count = functions.len();
    OutputModule {
        module_name: config.module_name.clone(),
        font_reference: config.font_reference.clone(),
        doc,
        shaping: config.shaping,
        count,
        functions,
        advanced_functions: if config.advanced_surface {
            Some(raws)
        } else {
            None
        },
    }
}

/// The module of a pass over glyph candidates given in the order of the
/// font's character map.
pub fn generate_from_candidates(config: &GenerationConfig, cands: &[GlyphCandidate]) -> (r: OutputModule)
    ensures
        r@ == generation_from(config@, candidates_view(cands@)),
{
    let entries = select_entries(cands);
    assemble_module(config, &entries)
}

/// The module of a pass over a font's bytes, or the fatal error that stops it.
pub fn generate_module(data: &[u8], config: &GenerationConfig) -> (r: Result<OutputModule, FontError>)
    ensures
        outcome_view(r) == generation(data@, config@),
{
    match read_glyphs(data) {
        Ok(cands) => Ok(generate_from_candidates(config, cands.as_slice())),
        Err(e) => Err(e),
    }
}

/// The count of a module is the number of its widget accessors, and where it
/// holds raw-content accessors, the number of those too.
pub proof fn lemma_count_is_fragments(cfg: ConfigModel, c: Seq<(char, Seq<char>)>)
    ensures
        generation_from(cfg, c).count == generation_from(cfg, c).functions.len(),
        generation_from(cfg, c).advanced_functions matches Some(f) ==> f.len()
            == generation_from(cfg, c).count,
{
}

/// A pass is deterministic: two passes over the same bytes with the same
/// configuration have the same outcome.
pub proof fn lemma_generation_deterministic(
    d1: Seq<u8>,
    d2: Seq<u8>,
    c1: ConfigModel,
    c2: ConfigModel,
    r1: Result<ModuleModel, FontError>,
    r2: Result<ModuleModel, FontError>,
)
    requires
        d1 == d2,
        c1 == c2,
        r1 == generation(d1, c1),
        r2 == generation(d2, c2),
    ensures
        r1 == r2,
{
}

/// A fatal error of reading the font is the outcome of the whole pass: no
/// module is produced.
pub proof fn lemma_failure_yields_no_module(data: Seq<u8>, cfg: ConfigModel)
    ensures
        font_glyphs(data) matches Err(e) ==> generation(data, cfg) == Err::<ModuleModel, FontError>(e),
        !crate::font::face_parses(data) ==> generation(data, cfg) == Err::<ModuleModel, FontError>(
            FontError::MalformedFont,
        ),
{
}

} // verus!
