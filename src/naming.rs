//! Turning a raw glyph name into a program identifier.
use vstd::prelude::*;
use crate::text::push_str;

verus! {

/// Whether `c` is an ASCII decimal digit.
pub open spec fn is_digit(c: char) -> bool {
    '0' <= c && c <= '9'
}

/// The English word that stands for an ASCII digit.
pub open spec fn digit_word(c: char) -> Seq<char> {
    if c == '0' {
        seq!['z', 'e', 'r', 'o']
    } else if c == '1' {
        seq!['o', 'n', 'e']
    } else if c == '2' {
        seq!['t', 'w', 'o']
    } else if c == '3' {
        seq!['t', 'h', 'r', 'e', 'e']
    } else if c == '4' {
        seq!['f', 'o', 'u', 'r']
    } else if c == '5' {
        seq!['f', 'i', 'v', 'e']
    } else if c == '6' {
        seq!['s', 'i', 'x']
    } else if c == '7' {
        seq!['s', 'e', 'v', 'e', 'n']
    } else if c == '8' {
        seq!['e', 'i', 'g', 'h', 't']
    } else {
        seq!['n', 'i', 'n', 'e']
    }
}

/// What one character of a raw name becomes: a hyphen an underscore, a digit
/// its word, anything else itself.
pub open spec fn replacement(c: char) -> Seq<char> {
    if c == '-' {
        seq!['_']
    } else if is_digit(c) {
        digit_word(c)
    } else {
        seq![c]
    }
}

/// The raw name with every character replaced independently.
pub open spec fn substituted(s: Seq<char>) -> Seq<char>
    decreases s.len(),
{
    if s.len() == 0 {
        Seq::empty()
    } else {
        substituted(s.drop_last()) + replacement(s.last())
    }
}

/// The word that a lone underscore becomes.
pub open spec fn underscore_word() -> Seq<char> {
    seq!['u', 'n', 'd', 'e', 'r', 's', 'c', 'o', 'r', 'e']
}

/// The substituted name, with a lone underscore spelled out.
pub open spec fn canonical(s: Seq<char>) -> Seq<char> {
    let t = substituted(s);
    if t == seq!['_'] {
        underscore_word()
    } else {
        t
    }
}

/// The punctuation and space that no identifier may hold.
pub open spec fn is_disallowed(c: char) -> bool {
    c == '+' || c == '-' || c == '*' || c == '/' || c == '@' || c == '!' || c == '#' || c == '$'
        || c == '%' || c == '^' || c == '&' || c == '(' || c == ')' || c == '=' || c == '~'
        || c == '`' || c == ';' || c == ':' || c == '"' || c == '\'' || c == ',' || c == '<'
        || c == '>' || c == '?' || c == '.' || c == ' ' || c == '[' || c == ']' || c == '{'
        || c == '}' || c == '|' || c == '\\'
}

/// Whether some character of `s` is disallowed.
pub open spec fn has_disallowed(s: Seq<char>) -> bool {
    exists|i: int| 0 <= i < s.len() && is_disallowed(#[trigger] s[i])
}

/// Whether `c` is an ASCII letter or an underscore.
pub open spec fn is_plain(c: char) -> bool {
    ('a' <= c && c <= 'z') || ('A' <= c && c <= 'Z') || c == '_'
}

/// Whether a character has the Unicode `Alphabetic` property.
pub uninterp spec fn alphabetic(c: char) -> bool;

/// Whether `c` may stand in an identifier: an ASCII letter, an underscore,
/// or a letter beyond ASCII.
pub open spec fn is_identifier_char(c: char) -> bool {
    is_plain(c) || (c > '\u{7f}' && alphabetic(c))
}

/// Whether every character of `s` may stand in an identifier.
pub open spec fn all_identifier_chars(s: Seq<char>) -> bool {
    forall|i: int| 0 <= i < s.len() ==> is_identifier_char(#[trigger] s[i])
}

/// The identifier of a raw glyph name, or `None` where the glyph is rejected:
/// where the canonical name is empty, holds a disallowed character, or holds
/// anything but letters and underscores.
pub open spec fn sanitized(s: Seq<char>) -> Option<Seq<char>> {
    let t = canonical(s);
    if t.len() == 0 || has_disallowed(t) || !all_identifier_chars(t) {
        None
    } else {
        Some(t)
    }
}

/// Relies on `char::is_alphabetic`: whether the character has the Unicode
/// `Alphabetic` property, which depends on the character alone.
#[verifier::external_body]
fn unicode_alphabetic(c: char) -> (r: bool)
    ensures
        r == alphabetic(c),
{
    c.is_alphabetic()
}

/// Whether `c` may stand in an identifier.
pub fn identifier_char(c: char) -> (r: bool)
    ensures
        r == is_identifier_char(c),
{
    if ('a' <= c && c <= 'z') || ('A' <= c && c <= 'Z') || c == '_' {
        true
    } else if c <= '\u{7f}' {
        false
    } else {
        unicode_alphabetic(c)
    }
}

fn digit_text(c: char) -> (r: &'static str)
    requires
        is_digit(c),
    ensures
        r@ == digit_word(c),
{
    proof {
        reveal_strlit("zero");
        reveal_strlit("one");
        reveal_strlit("two");
        reveal_strlit("three");
        reveal_strlit("four");
        reveal_strlit("five");
        reveal_strlit("six");
        reveal_strlit("seven");
        reveal_strlit("eight");
        reveal_strlit("nine");
    }
    if c == '0' {
        "zero"
    } else if c == '1' {
        "one"
    } else if c == '2' {
        "two"
    } else if c == '3' {
        "three"
    } else if c == '4' {
        "four"
    } else if c == '5' {
        "five"
    } else if c == '6' {
        "six"
    } else if c == '7' {
        "seven"
    } else if c == '8' {
        "eight"
    } else {
        "nine"
    }
}

/// Whether `c` is one of the disallowed characters.
pub fn disallowed(c: char) -> (r: bool)
    ensures
        r == is_disallowed(c),
{
    c == '+' || c == '-' || c == '*' || c == '/' || c == '@' || c == '!' || c == '#' || c == '$'
        || c == '%' || c == '^' || c == '&' || c == '(' || c == ')' || c == '=' || c == '~'
        || c == '`' || c == ';' || c == ':' || c == '"' || c == '\'' || c == ',' || c == '<'
        || c == '>' || c == '?' || c == '.' || c == ' ' || c == '[' || c == ']' || c == '{'
        || c == '}' || c == '|' || c == '\\'
}

/// Replaces hyphens and digits, character by character.
pub fn substitute(raw: &[char]) -> (r: Vec<char>)
    ensures
        r@ == substituted(raw@),
{
    let mut out: Vec<char> = Vec::new();
    let mut i: usize = 0;
    while i < raw.len()
        invariant
            i <= raw@.len(),
            out@ == substituted(raw@.subrange(0, i as int)),
        decreases raw.len() - i,
    {
        let c = raw[i];
        if c == '-' {
            out.push('_');
        } else if '0' <= c && c <= '9' {
            push_str(&mut out, digit_text(c));
        } else {
            out.push(c);
        }
        proof {
            let next = raw@.subrange(0, i + 1);
            assert(next.drop_last() == raw@.subrange(0, i as int));
            assert(next.last() == c);
        }
        i = i + 1;
    }
    assert(raw@.subrange(0, raw@.len() as int) == raw@);
    out
}

/// The identifier for a raw glyph name, or `None` where, once hyphens and
/// digits are replaced, it is empty, holds a disallowed character or holds
/// anything but letters and underscores.
pub fn sanitize_name(raw: &[char]) -> (r: Option<Vec<char>>)
    ensures
        match r {
            Some(v) => sanitized(raw@) == Some(v@),
            None => sanitized(raw@).is_none(),
        },
{
    let mut name = substitute(raw);
    if name.len() == 1 && name[0] == '_' {
        assert(name@ =~= seq!['_']);
        name = Vec::new();
        proof { reveal_strlit("underscore"); }
        push_str(&mut name, "underscore");
        assert(name@ =~= underscore_word());
    } else {
        assert(name@ != seq!['_']) by {
            if name@ == seq!['_'] {
                assert(name@.len() == 1 && name@[0] == '_');
            }
        }
    }
    assert(name@ == canonical(raw@));
    if name.len() == 0 {
        return None;
    }
    let mut i: usize = 0;
    while i < name.len()
        invariant
            i <= name@.len(),
            name@ == canonical(raw@),
            forall|j: int| 0 <= j < i ==> !is_disallowed(#[trigger] name@[j]) && is_identifier_char(name@[j]),
        decreases name.len() - i,
    {
        if disallowed(name[i]) {
            assert(has_disallowed(name@));
            return None;
        }
        if !identifier_char(name[i]) {
            assert(!all_identifier_chars(name@));
            return None;
        }
        i = i + 1;
    }
    Some(name)
}

/// Replacement works on each character alone: the substitution of a
/// concatenation is the concatenation of the substitutions.
pub proof fn lemma_substituted_concat(a: Seq<char>, b: Seq<char>)
    ensures
        substituted(a + b) == substituted(a) + substituted(b),
    decreases b.len(),
{
    if b.len() == 0 {
        assert(a + b == a);
    } else {
        lemma_substituted_concat(a, b.drop_last());
        assert((a + b).drop_last() == a + b.drop_last());
        assert((a + b).last() == b.last());
    }
}

/// Each digit, wherever it stands, becomes its word: a name made of a
/// prefix, a digit and a suffix is substituted to the prefix's substitution,
/// the digit's word and the suffix's substitution.
pub proof fn lemma_digit_becomes_word(a: Seq<char>, d: char, b: Seq<char>)
    requires
        is_digit(d),
    ensures
        substituted(a + seq![d] + b) == substituted(a) + digit_word(d) + substituted(b),
{
    lemma_substituted_concat(a + seq![d], b);
    lemma_substituted_concat(a, seq![d]);
    assert(seq![d].drop_last() == Seq::<char>::empty());
    assert(substituted(seq![d]) == substituted(Seq::<char>::empty()) + replacement(d));
    assert(substituted(Seq::<char>::empty()) + digit_word(d) == digit_word(d));
}

/// A name with no hyphen and no digit is left as it is by substitution.
pub proof fn lemma_substituted_identity(s: Seq<char>)
    requires
        forall|i: int| 0 <= i < s.len() ==> s[i] != '-' && !is_digit(#[trigger] s[i]),
    ensures
        substituted(s) == s,
    decreases s.len(),
{
    if s.len() > 0 {
        lemma_substituted_identity(s.drop_last());
        assert(s.drop_last() + seq![s.last()] == s);
    }
}

/// A non-empty name of ASCII letters and underscores, other than a lone
/// underscore, is its own identifier.
pub proof fn lemma_plain_name_unchanged(s: Seq<char>)
    requires
        forall|i: int| 0 <= i < s.len() ==> is_plain(#[trigger] s[i]),
        s.len() > 0,
        s != seq!['_'],
    ensures
        sanitized(s) == Some(s),
{
    lemma_substituted_identity(s);
    assert(!has_disallowed(s)) by {
        if has_disallowed(s) {
            let i = choose|i: int| 0 <= i < s.len() && is_disallowed(#[trigger] s[i]);
            assert(is_plain(s[i]));
        }
    }
}

/// Substitution leaves no digit and no hyphen behind.
pub proof fn lemma_substituted_has_no_digit(s: Seq<char>)
    ensures
        forall|i: int|
            0 <= i < substituted(s).len() ==> !is_digit(#[trigger] substituted(s)[i])
                && substituted(s)[i] != '-',
    decreases s.len(),
{
    if s.len() > 0 {
        lemma_substituted_has_no_digit(s.drop_last());
        let p = substituted(s.drop_last());
        let w = replacement(s.last());
        assert(substituted(s) == p + w);
        assert forall|i: int| 0 <= i < substituted(s).len() implies !is_digit(
            #[trigger] substituted(s)[i],
        ) && substituted(s)[i] != '-' by {
            if i >= p.len() {
                assert(substituted(s)[i] == w[i - p.len()]);
            } else {
                assert(substituted(s)[i] == p[i]);
            }
        }
    }
}

/// An identifier is non-empty and made of letters and underscores: it holds
/// no digit, no hyphen and no disallowed character.
pub proof fn lemma_identifier_clean(s: Seq<char>)
    ensures
        sanitized(s) matches Some(t) ==> t.len() > 0 && forall|i: int|
            0 <= i < t.len() ==> !is_digit(#[trigger] t[i]) && t[i] != '-' && !is_disallowed(t[i])
                && is_identifier_char(t[i]),
{
    lemma_substituted_has_no_digit(s);
    if let Some(t) = sanitized(s) {
        assert forall|i: int| 0 <= i < t.len() implies !is_digit(#[trigger] t[i]) && t[i] != '-'
            && !is_disallowed(t[i]) && is_identifier_char(t[i]) by {
            if substituted(s) == seq!['_'] {
                assert(t == underscore_word());
            } else {
                assert(t == substituted(s));
            }
        }
    }
}

/// Whether `w` is a suffix of `p`.
pub open spec fn ends_with(p: Seq<char>, w: Seq<char>) -> bool {
    w.len() <= p.len() && p.subrange(p.len() - w.len(), p.len() as int) == w
}

/// Each character's replacement is at least one character long.
proof fn lemma_substituted_len(s: Seq<char>)
    ensures
        substituted(s).len() >= s.len(),
    decreases s.len(),
{
    if s.len() > 0 {
        lemma_substituted_len(s.drop_last());
    }
}

/// A text that holds no underscore and in which no prefix ends with a digit
/// word is the substitution of itself alone.
proof fn lemma_substituted_only_self(n: Seq<char>, t: Seq<char>)
    requires
        substituted(n) == t,
        forall|i: int| 0 <= i < t.len() ==> #[trigger] t[i] != '_',
        forall|j: int, d: char|
            0 < j <= t.len() && is_digit(d) ==> !(#[trigger] ends_with(t.subrange(0, j), digit_word(d))),
    ensures
        n == t,
    decreases n.len(),
{
    if n.len() > 0 {
        let p = substituted(n.drop_last());
        let c = n.last();
        let r = replacement(c);
        assert(t == p + r);
        if c == '-' {
            assert(t[t.len() - 1] == '_');
        } else if is_digit(c) {
            assert(t.subrange(0, t.len() as int) == t);
            assert(t.subrange(t.len() - r.len(), t.len() as int) =~= r);
            assert(ends_with(t.subrange(0, t.len() as int), digit_word(c)));
        } else {
            let u = t.drop_last();
            assert(p =~= u);
            assert forall|j: int, d: char|
                0 < j <= u.len() && is_digit(d) implies !(#[trigger] ends_with(u.subrange(0, j), digit_word(d))) by {
                assert(u.subrange(0, j) =~= t.subrange(0, j));
            }
            lemma_substituted_only_self(n.drop_last(), u);
            assert(n =~= n.drop_last().push(c));
            assert(t =~= u.push(c));
        }
    } else {
        assert(t.len() == 0);
    }
}

/// A raw name becomes `underscore` exactly when it is `-`, `_` or
/// `underscore` itself.
pub proof fn lemma_underscore_exactly(n: Seq<char>)
    ensures
        sanitized(n) == Some(underscore_word()) <==> (n == seq!['-'] || n == seq!['_'] || n
            == underscore_word()),
{
    let w = underscore_word();
    assert(substituted(seq!['-']) =~= seq!['_']) by {
        let one = seq!['-'];
        assert(one.len() == 1);
        assert(one.drop_last() =~= Seq::<char>::empty());
        assert(one.last() == '-');
        assert(substituted(one) == substituted(one.drop_last()) + replacement('-'));
        assert(Seq::<char>::empty() + seq!['_'] =~= seq!['_']);
    }
    assert(substituted(seq!['_']) =~= seq!['_']) by {
        let one = seq!['_'];
        assert(one.len() == 1);
        assert(one.drop_last() =~= Seq::<char>::empty());
        assert(one.last() == '_');
        assert(substituted(one) == substituted(one.drop_last()) + replacement('_'));
        assert(Seq::<char>::empty() + seq!['_'] =~= seq!['_']);
    }
    assert forall|i: int| 0 <= i < w.len() implies is_plain(#[trigger] w[i]) by {}
    lemma_plain_name_unchanged(w);
    assert(!has_disallowed(w)) by {
        if has_disallowed(w) {
            let i = choose|i: int| 0 <= i < w.len() && is_disallowed(#[trigger] w[i]);
            assert(is_plain(w[i]));
        }
    }
    assert(all_identifier_chars(w)) by {
        assert forall|i: int| 0 <= i < w.len() implies is_identifier_char(#[trigger] w[i]) by {
            assert(is_plain(w[i]));
        }
    }
    if sanitized(n) == Some(w) {
        let t = substituted(n);
        if t == seq!['_'] {
            lemma_substituted_len(n);
            assert(n.len() == 1);
            assert(n.drop_last() =~= Seq::<char>::empty());
            assert(replacement(n.last()) == t);
            if is_digit(n.last()) {
                assert(digit_word(n.last()).len() >= 3);
            }
            assert(n =~= seq![n.last()]);
        } else {
            assert(t == w);
            assert forall|j: int, d: char|
                0 < j <= w.len() && is_digit(d) implies !(#[trigger] ends_with(w.subrange(0, j), digit_word(d))) by {
                let p = w.subrange(0, j);
                let dw = digit_word(d);
                if ends_with(p, dw) {
                    assert(dw.len() >= 3);
                    assert(p[j - 1] == dw[dw.len() - 1]);
                    assert(p[j - 2] == dw[dw.len() - 2]);
                    assert(p[j - 1] == w[j - 1]);
                    assert(p[j - 2] == w[j - 2]);
                }
            }
            lemma_substituted_only_self(n, w);
        }
    }
}

} // verus!
