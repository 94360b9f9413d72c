//! Choosing the glyphs that become accessors: sanitize each name and keep
//! only the first glyph of each identifier.
use vstd::prelude::*;
use crate::naming::{
    is_digit, is_disallowed, is_identifier_char, lemma_identifier_clean, sanitized, sanitize_name,
};
use crate::registry::NameRegistry;

verus! {

/// A glyph of the character map with its raw name.
pub struct GlyphCandidate {
    pub codepoint: char,
    pub raw_name: Vec<char>,
}

impl View for GlyphCandidate {
    type V = (char, Seq<char>);

    open spec fn view(&self) -> (char, Seq<char>) {
        (self.codepoint, self.raw_name@)
    }
}

/// A glyph that receives an accessor: its identifier, its character and the
/// raw name it came from.
pub struct AccessorEntry {
    pub name: Vec<char>,
    pub codepoint: char,
    pub raw_name: Vec<char>,
}

impl View for AccessorEntry {
    type V = (Seq<char>, char, Seq<char>);

    open spec fn view(&self) -> (Seq<char>, char, Seq<char>) {
        (self.name@, self.codepoint, self.raw_name@)
    }
}

/// The identifiers of a sequence of entries.
pub open spec fn entry_names(e: Seq<(Seq<char>, char, Seq<char>)>) -> Seq<Seq<char>> {
    e.map_values(|x: (Seq<char>, char, Seq<char>)| x.0)
}

/// The entries that a sequence of candidates yields, in order: a candidate
/// whose name is rejected, or whose identifier an earlier one took, yields none.
pub open spec fn kept(c: Seq<(char, Seq<char>)>) -> Seq<(Seq<char>, char, Seq<char>)>
    decreases c.len(),
{
    if c.len() == 0 {
        Seq::empty()
    } else {
        let prev = kept(c.drop_last());
        let last = c.last();
        match sanitized(last.1) {
            None => prev,
            Some(n) => if entry_names(prev).contains(n) {
                prev
            } else {
                prev.push((n, last.0, last.1))
            },
        }
    }
}

/// The views of a slice of candidates.
pub open spec fn candidates_view(c: Seq<GlyphCandidate>) -> Seq<(char, Seq<char>)> {
    c.map_values(|g: GlyphCandidate| g@)
}

/// The views of a sequence of entries.
pub open spec fn entries_view(e: Seq<AccessorEntry>) -> Seq<(Seq<char>, char, Seq<char>)> {
    e.map_values(|x: AccessorEntry| x@)
}

/// The identifiers of the candidates that were dropped because an earlier
/// candidate took the same identifier, one per dropped candidate, in order.
pub open spec fn duplicates(c: Seq<(char, Seq<char>)>) -> Seq<Seq<char>>
    decreases c.len(),
{
    if c.len() == 0 {
        Seq::empty()
    } else {
        let prev = duplicates(c.drop_last());
        match sanitized(c.last().1) {
            Some(n) => if entry_names(kept(c.drop_last())).contains(n) {
                prev.push(n)
            } else {
                prev
            },
            None => prev,
        }
    }
}

/// The views of a vector of names.
pub open spec fn names_view(v: Seq<Vec<char>>) -> Seq<Seq<char>> {
    v.map_values(|x: Vec<char>| x@)
}

/// The accessor entries of the candidates, in their order, one per
/// identifier, and the identifiers of the candidates dropped as duplicates.
pub fn select_with_duplicates(cands: &[GlyphCandidate]) -> (r: (Vec<AccessorEntry>, Vec<Vec<char>>))
    ensures
        entries_view(r.0@) == kept(candidates_view(cands@)),
        names_view(r.1@) == duplicates(candidates_view(cands@)),
{
    let mut registry = NameRegistry::new();
    let mut out: Vec<AccessorEntry> = Vec::new();
    let mut dups: Vec<Vec<char>> = Vec::new();
    let mut i: usize = 0;
    while i < cands.len()
        invariant
            i <= cands@.len(),
            registry.wf(),
            registry.claims() <= i,
            entries_view(out@) == kept(candidates_view(cands@.subrange(0, i as int))),
            names_view(dups@) == duplicates(candidates_view(cands@.subrange(0, i as int))),
            registry.names() == entry_names(entries_view(out@)),
        decreases cands.len() - i,
    {
        let ghost pre = candidates_view(cands@.subrange(0, i as int));
        let ghost next = candidates_view(cands@.subrange(0, i + 1));
        proof {
            assert(next.drop_last() =~= pre);
            assert(next.last() == cands@[i as int]@);
        }
        let cand = &cands[i];
        match sanitize_name(cand.raw_name.as_slice()) {
            None => {},
            Some(name) => {
                if registry.claim(&name) {
                    let entry = AccessorEntry {
                        name,
                        codepoint: cand.codepoint,
                        raw_name: cand.raw_name.clone(),
                    };
                    out.push(entry);
                    assert(entries_view(out@) =~= kept(pre).push(entry@));
                    assert(registry.names() =~= entry_names(entries_view(out@)));
                } else {
                    let ghost n = name@;
                    dups.push(name);
                    assert(names_view(dups@) =~= duplicates(pre).push(n));
                }
            },
        }
        i = i + 1;
    }
    assert(cands@.subrange(0, cands@.len() as int) =~= cands@);
    (out, dups)
}

/// The accessor entries of the candidates, in their order, one per identifier.
pub fn select_entries(cands: &[GlyphCandidate]) -> (r: Vec<AccessorEntry>)
    ensures
        entries_view(r@) == kept(candidates_view(cands@)),
{
    let (entries, _) = select_with_duplicates(cands);
    entries
}

/// Every candidate with an identifier either yields an entry or is listed
/// among the duplicates: the entries and the duplicates together number the
/// candidates whose names are not rejected.
pub proof fn lemma_entries_and_duplicates(c: Seq<(char, Seq<char>)>)
    ensures
        kept(c).len() + duplicates(c).len() == c.filter(
            |x: (char, Seq<char>)| sanitized(x.1) is Some,
        ).len(),
    decreases c.len(),
{
    reveal(Seq::filter);
    if c.len() > 0 {
        lemma_entries_and_duplicates(c.drop_last());
    }
}

/// Whether some candidate of `c` has the identifier `n`.
pub open spec fn some_candidate_named(c: Seq<(char, Seq<char>)>, n: Seq<char>) -> bool {
    exists|i: int| 0 <= i < c.len() && sanitized(#[trigger] c[i].1) == Some(n)
}

/// The identifiers of the surviving candidates.
pub open spec fn identifiers(c: Seq<(char, Seq<char>)>) -> Set<Seq<char>> {
    Set::new(|n: Seq<char>| some_candidate_named(c, n))
}

/// No identifier is given to two entries, and an entry's identifier is the
/// identifier of some candidate, and every candidate's identifier has an entry.
pub proof fn lemma_kept_names(c: Seq<(char, Seq<char>)>)
    ensures
        entry_names(kept(c)).no_duplicates(),
        forall|n: Seq<char>| #[trigger]
            entry_names(kept(c)).contains(n) <==> some_candidate_named(c, n),
    decreases c.len(),
{
    if c.len() > 0 {
        let p = c.drop_last();
        lemma_kept_names(p);
        let prev = kept(p);
        let last = c.last();
        assert forall|i: int| 0 <= i < p.len() implies #[trigger] p[i] == c[i] by {}
        assert forall|n: Seq<char>| some_candidate_named(c, n) <==> (some_candidate_named(p, n)
            || sanitized(last.1) == Some(n)) by {
            if some_candidate_named(c, n) {
                let i = choose|i: int| 0 <= i < c.len() && sanitized(#[trigger] c[i].1) == Some(n);
                if i < p.len() {
                    assert(p[i] == c[i]);
                }
            }
            if some_candidate_named(p, n) {
                let i = choose|i: int| 0 <= i < p.len() && sanitized(#[trigger] p[i].1) == Some(n);
                assert(c[i] == p[i]);
            }
            if sanitized(last.1) == Some(n) {
                assert(c[c.len() - 1] == last);
            }
        }
        match sanitized(last.1) {
            None => {},
            Some(n) => {
                if !entry_names(prev).contains(n) {
                    let e = (n, last.0, last.1);
                    assert(entry_names(prev.push(e)) =~= entry_names(prev).push(n));
                    let names = entry_names(prev).push(n);
                    assert forall|i: int, j: int|
                        0 <= i < names.len() && 0 <= j < names.len() && i != j implies names[i]
                        != names[j] by {
                        if i == names.len() - 1 {
                            assert(entry_names(prev)[j] == names[j]);
                        } else if j == names.len() - 1 {
                            assert(entry_names(prev)[i] == names[i]);
                        } else {
                            assert(entry_names(prev)[i] == names[i]);
                            assert(entry_names(prev)[j] == names[j]);
                        }
                    }
                    assert forall|m: Seq<char>| #[trigger] names.contains(m) <==> (
                    entry_names(prev).contains(m) || m == n) by {
                        if names.contains(m) {
                            let k = choose|k: int| 0 <= k < names.len() && names[k] == m;
                            if k < names.len() - 1 {
                                assert(entry_names(prev)[k] == m);
                            }
                        }
                        if entry_names(prev).contains(m) {
                            let k = choose|k: int|
                                0 <= k < entry_names(prev).len() && entry_names(prev)[k] == m;
                            assert(names[k] == m);
                        }
                        if m == n {
                            assert(names[names.len() - 1] == m);
                        }
                    }
                }
            },
        }
    }
}

/// The number of entries is the number of distinct identifiers among the
/// candidates, not the number of candidates.
pub proof fn lemma_kept_count(c: Seq<(char, Seq<char>)>)
    ensures
        identifiers(c).finite(),
        kept(c).len() == identifiers(c).len(),
{
    lemma_kept_names(c);
    let names = entry_names(kept(c));
    assert(names.to_set() =~= identifiers(c)) by {
        assert forall|n: Seq<char>| names.to_set().contains(n) <==> identifiers(c).contains(n) by {
            assert(names.contains(n) <==> some_candidate_named(c, n));
        }
    }
    names.unique_seq_to_set();
}

/// Each entry comes from the first candidate, in the candidates' order, whose
/// name has that identifier; the later ones are dropped.
pub proof fn lemma_kept_first(c: Seq<(char, Seq<char>)>)
    ensures
        forall|k: int| 0 <= k < kept(c).len() ==> exists|i: int|
            0 <= i < c.len() && sanitized(c[i].1) == Some(#[trigger] kept(c)[k].0)
                && kept(c)[k].1 == c[i].0 && kept(c)[k].2 == c[i].1
                && forall|j: int| 0 <= j < i ==> sanitized(#[trigger] c[j].1) != Some(kept(c)[k].0),
    decreases c.len(),
{
    if c.len() > 0 {
        let p = c.drop_last();
        lemma_kept_first(p);
        lemma_kept_names(p);
        let prev = kept(p);
        let last = c.last();
        assert forall|i: int| 0 <= i < p.len() implies #[trigger] p[i] == c[i] by {}
        assert forall|k: int| 0 <= k < kept(c).len() implies exists|i: int|
            0 <= i < c.len() && sanitized(c[i].1) == Some(#[trigger] kept(c)[k].0)
                && kept(c)[k].1 == c[i].0 && kept(c)[k].2 == c[i].1
                && forall|j: int| 0 <= j < i ==> sanitized(#[trigger] c[j].1) != Some(kept(c)[k].0) by {
            if k < prev.len() {
                assert(kept(c)[k] == prev[k]);
                let i = choose|i: int|
                    0 <= i < p.len() && sanitized(p[i].1) == Some(#[trigger] prev[k].0)
                        && prev[k].1 == p[i].0 && prev[k].2 == p[i].1
                        && forall|j: int| 0 <= j < i ==> sanitized(#[trigger] p[j].1) != Some(prev[k].0);
                assert(c[i] == p[i]);
                assert forall|j: int| 0 <= j < i implies sanitized(#[trigger] c[j].1) != Some(kept(c)[k].0) by {
                    assert(c[j] == p[j]);
                }
            } else {
                let n = sanitized(last.1).unwrap();
                assert(kept(c)[k] == (n, last.0, last.1));
                let i = c.len() - 1;
                assert(c[i] == last);
                assert forall|j: int| 0 <= j < i implies sanitized(#[trigger] c[j].1) != Some(n) by {
                    assert(c[j] == p[j]);
                    if sanitized(p[j].1) == Some(n) {
                        assert(some_candidate_named(p, n));
                        assert(entry_names(prev).contains(n));
                    }
                }
            }
        }
    }
}

/// Every entry's identifier is non-empty and made of letters and
/// underscores: it holds no disallowed character, no hyphen and no digit.
pub proof fn lemma_kept_names_clean(c: Seq<(char, Seq<char>)>)
    ensures
        forall|k: int| 0 <= k < kept(c).len() ==> (#[trigger] kept(c)[k]).0.len() > 0,
        forall|k: int, i: int|
            0 <= k < kept(c).len() && 0 <= i < kept(c)[k].0.len() ==> !is_disallowed(
                #[trigger] kept(c)[k].0[i],
            ) && !is_digit(kept(c)[k].0[i]) && kept(c)[k].0[i] != '-' && is_identifier_char(
                kept(c)[k].0[i],
            ),
{
    lemma_kept_names(c);
    assert forall|k: int| 0 <= k < kept(c).len() implies (#[trigger] kept(c)[k]).0.len() > 0 by {
        let n = kept(c)[k].0;
        assert(entry_names(kept(c))[k] == n);
        assert(entry_names(kept(c)).contains(n));
        let j = choose|j: int| 0 <= j < c.len() && sanitized(#[trigger] c[j].1) == Some(n);
        lemma_identifier_clean(c[j].1);
    }
    assert forall|k: int, i: int|
        0 <= k < kept(c).len() && 0 <= i < kept(c)[k].0.len() implies !is_disallowed(
            #[trigger] kept(c)[k].0[i],
        ) && !is_digit(kept(c)[k].0[i]) && kept(c)[k].0[i] != '-' && is_identifier_char(
            kept(c)[k].0[i],
        ) by {
        let n = kept(c)[k].0;
        assert(entry_names(kept(c))[k] == n);
        assert(entry_names(kept(c)).contains(n));
        let j = choose|j: int| 0 <= j < c.len() && sanitized(#[trigger] c[j].1) == Some(n);
        lemma_identifier_clean(c[j].1);
        let t = sanitized(c[j].1).unwrap();
        assert(t == n);
        assert(!is_digit(t[i]));
    }
}

/// A glyph whose name is rejected gets no accessor: where no two candidates
/// share a codepoint, no entry carries the codepoint of a candidate whose
/// name does not sanitize.
pub proof fn lemma_rejected_has_no_entry(c: Seq<(char, Seq<char>)>, i: int)
    requires
        0 <= i < c.len(),
        sanitized(c[i].1) is None,
        forall|a: int, b: int| 0 <= a < b < c.len() ==> c[a].0 != c[b].0,
    ensures
        forall|k: int| 0 <= k < kept(c).len() ==> (#[trigger] kept(c)[k]).1 != c[i].0,
{
    lemma_kept_first(c);
    assert forall|k: int| 0 <= k < kept(c).len() implies (#[trigger] kept(c)[k]).1 != c[i].0 by {
        let j = choose|j: int|
            0 <= j < c.len() && sanitized(c[j].1) == Some(#[trigger] kept(c)[k].0)
                && kept(c)[k].1 == c[j].0 && kept(c)[k].2 == c[j].1
                && forall|m: int| 0 <= m < j ==> sanitized(#[trigger] c[m].1) != Some(kept(c)[k].0);
        if j < i {
            assert(c[j].0 != c[i].0);
        } else if i < j {
            assert(c[i].0 != c[j].0);
        }
    }
}

} // verus!
