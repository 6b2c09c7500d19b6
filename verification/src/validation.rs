//! Input validation for URIs, language tags and blank-node identifiers, and
//! escaping of literal values.
//!
//! The escape map used by [`sanitize_literal_value`] doubles as the string
//! escape of the transaction-log codec, so its specification lives here.

use vstd::prelude::*;
use vstd::string::StringExecFns;
use crate::error::RdfEditorError;
use crate::text::chars_of;
use crate::text::contains_char;
use crate::text::has_prefix;
use crate::text::is_prefix_of;
use crate::text::string_from_chars;

verus! {

/// The escape of a single character: backslash, double quote, newline,
/// carriage return and tab become two-character escape sequences; every
/// other character stands for itself.
pub open spec fn spec_escape_char(c: char) -> Seq<char> {
    if c == '\\' {
        seq!['\\', '\\']
    } else if c == '"' {
        seq!['\\', '"']
    } else if c == '\n' {
        seq!['\\', 'n']
    } else if c == '\r' {
        seq!['\\', 'r']
    } else if c == '\t' {
        seq!['\\', 't']
    } else {
        seq![c]
    }
}

/// The escape of a whole sequence, character by character.
pub open spec fn spec_escape(s: Seq<char>) -> Seq<char>
    decreases s.len(),
{
    if s.len() == 0 {
        Seq::empty()
    } else {
        spec_escape_char(s[0]) + spec_escape(s.drop_first())
    }
}

/// Escaping distributes over appending one character at the end.
pub proof fn lemma_escape_push(s: Seq<char>, c: char)
    ensures
        spec_escape(s.push(c)) == spec_escape(s) + spec_escape_char(c),
    decreases s.len(),
{
    if s.len() == 0 {
        assert(s.push(c)[0] == c);
        assert(s.push(c).drop_first() =~= Seq::<char>::empty());
        assert(spec_escape(s.push(c)) == spec_escape_char(c) + spec_escape(Seq::<char>::empty()));
        assert(spec_escape_char(c) + spec_escape(Seq::<char>::empty()) =~= spec_escape_char(c));
        assert(spec_escape(s) + spec_escape_char(c) =~= spec_escape_char(c));
    } else {
        assert(s.push(c).drop_first() =~= s.drop_first().push(c));
        lemma_escape_push(s.drop_first(), c);
        assert(spec_escape(s.push(c)) == spec_escape_char(s[0]) + (spec_escape(s.drop_first())
            + spec_escape_char(c)));
        assert(spec_escape_char(s[0]) + (spec_escape(s.drop_first()) + spec_escape_char(c)) =~= (
        spec_escape_char(s[0]) + spec_escape(s.drop_first())) + spec_escape_char(c));
    }
}

/// Appends the escape of `s` to `out`.
pub fn push_escaped(out: &mut Vec<char>, s: &Vec<char>)
    ensures
        final(out)@ == old(out)@ + spec_escape(s@),
{
    let mut i: usize = 0;
    proof {
        assert(s@.subrange(0, 0) =~= Seq::<char>::empty());
        assert(out@ =~= out@ + spec_escape(s@.subrange(0, 0)));
    }
    while i < s.len()
        invariant
            0 <= i <= s@.len(),
            out@ == old(out)@ + spec_escape(s@.subrange(0, i as int)),
        decreases s@.len() - i,
    {
        let c = s[i];
        if c == '\\' {
            out.push('\\');
            out.push('\\');
        } else if c == '"' {
            out.push('\\');
            out.push('"');
        } else if c == '\n' {
            out.push('\\');
            out.push('n');
        } else if c == '\r' {
            out.push('\\');
            out.push('r');
        } else if c == '\t' {
            out.push('\\');
            out.push('t');
        } else {
            out.push(c);
        }
        proof {
            assert(s@.subrange(0, i + 1) =~= s@.subrange(0, i as int).push(s@[i as int]));
            lemma_escape_push(s@.subrange(0, i as int), s@[i as int]);
            assert(out@ =~= old(out)@ + spec_escape(s@.subrange(0, i + 1)));
        }
        i = i + 1;
    }
    proof {
        assert(s@.subrange(0, s@.len() as int) =~= s@);
    }
}

/// Escapes backslash, double quote, newline, carriage return and tab in a
/// literal value so that it can be embedded between double quotes.
pub fn sanitize_literal_value(value: &str) -> (r: String)
    ensures
        r@ == spec_escape(value@),
{
    let chars = chars_of(value);
    let mut out: Vec<char> = Vec::new();
    push_escaped(&mut out, &chars);
    string_from_chars(&out)
}

/// Names the verdict of url::Url::parse on a text; the verdict depends on
/// the text alone.
pub uninterp spec fn url_parse_ok(s: Seq<char>) -> bool;

/// Relies on url::Url::parse: returns whether the text parses as an
/// absolute URL.
#[verifier::external_body]
fn url_parses(s: &str) -> (r: bool)
    ensures
        r == url_parse_ok(s@),
{
    url::Url::parse(s).is_ok()
}

/// Names the verdict of char::is_alphanumeric; the verdict depends on the
/// character alone.
pub uninterp spec fn char_is_alphanumeric(c: char) -> bool;

/// Relies on char::is_alphanumeric: returns whether the character is in a
/// Unicode letter or number category.
#[verifier::external_body]
fn is_alphanumeric_char(c: char) -> (r: bool)
    ensures
        r == char_is_alphanumeric(c),
{
    c.is_alphanumeric()
}

/// An acceptable URI starts with one of the three schemes the editor
/// serves.
pub open spec fn spec_uri_scheme_ok(s: Seq<char>) -> bool {
    is_prefix_of("http://"@, s) || is_prefix_of("https://"@, s) || is_prefix_of("urn:"@, s)
}

/// The conditions under which a URI is accepted.
pub open spec fn spec_uri_ok(s: Seq<char>) -> bool {
    &&& s.len() > 0
    &&& !s.contains('{')
    &&& !s.contains('}')
    &&& !s.contains(';')
    &&& spec_uri_scheme_ok(s)
    &&& is_prefix_of("http"@, s) ==> url_parse_ok(s)
}

/// Accepts a URI iff it is non-empty, free of characters usable for
/// injection, carries a served scheme, and (for http and https) parses as
/// an absolute URL.
pub fn validate_uri(uri: &str) -> (r: Result<(), RdfEditorError>)
    ensures
        r is Ok <==> spec_uri_ok(uri@),
        r matches Err(e) ==> e is InvalidInput,
{
    let chars = chars_of(uri);
    if chars.len() == 0 {
        return Err(RdfEditorError::InvalidInput(String::from_str("URI cannot be empty")));
    }
    if contains_char(&chars, '}') || contains_char(&chars, '{') || contains_char(&chars, ';') {
        return Err(RdfEditorError::InvalidInput(String::from_str(
            "URI contains invalid characters that could be used for injection",
        )));
    }
    let p_http = chars_of("http://");
    let p_https = chars_of("https://");
    let p_urn = chars_of("urn:");
    if !(has_prefix(&chars, &p_http) || has_prefix(&chars, &p_https) || has_prefix(
        &chars,
        &p_urn,
    )) {
        return Err(RdfEditorError::InvalidInput(String::from_str(
            "URIs should start with http://, https://, or urn:",
        )));
    }
    let p_h = chars_of("http");
    if has_prefix(&chars, &p_h) {
        if !url_parses(uri) {
            return Err(RdfEditorError::InvalidInput(String::from_str("Invalid URI")));
        }
    }
    Ok(())
}

/// The index of the first dash in `s`, or `s.len()` if there is none.
pub open spec fn spec_dash_index(s: Seq<char>) -> int
    decreases s.len(),
{
    if s.len() == 0 {
        0
    } else if s[0] == '-' {
        0
    } else {
        1 + spec_dash_index(s.drop_first())
    }
}

/// `spec_dash_index` points at the first dash: everything before it differs
/// from `'-'`, and it is either the end or a dash.
pub proof fn lemma_dash_index(s: Seq<char>)
    ensures
        0 <= spec_dash_index(s) <= s.len(),
        forall|j: int| 0 <= j < spec_dash_index(s) ==> s[j] != '-',
        spec_dash_index(s) < s.len() ==> s[spec_dash_index(s)] == '-',
    decreases s.len(),
{
    if s.len() == 0 {
    } else if s[0] == '-' {
    } else {
        lemma_dash_index(s.drop_first());
        assert forall|j: int| 0 <= j < spec_dash_index(s) implies s[j] != '-' by {
            if j > 0 {
                assert(s.drop_first()[j - 1] == s[j]);
            }
        }
        if spec_dash_index(s) < s.len() {
            assert(s.drop_first()[spec_dash_index(s) - 1] == s[spec_dash_index(s)]);
        }
    }
}

/// A character in the ASCII alphabetic range.
pub open spec fn spec_is_ascii_alpha(c: char) -> bool {
    (65 <= c as u32 && c as u32 <= 90) || (97 <= c as u32 && c as u32 <= 122)
}

/// The primary subtag of a language tag: everything before the first dash.
pub open spec fn spec_primary_subtag(s: Seq<char>) -> Seq<char> {
    s.subrange(0, spec_dash_index(s))
}

/// The conditions under which a language tag is accepted: non-empty, free
/// of quote and backslash, and its primary subtag is two or three ASCII
/// letters.
pub open spec fn spec_language_tag_ok(s: Seq<char>) -> bool {
    &&& s.len() > 0
    &&& !s.contains('"')
    &&& !s.contains('\\')
    &&& 2 <= spec_primary_subtag(s).len() <= 3
    &&& forall|j: int|
        0 <= j < spec_primary_subtag(s).len() ==> spec_is_ascii_alpha(#[trigger] spec_primary_subtag(
            s,
        )[j])
}

/// Accepts a language tag iff it meets `spec_language_tag_ok`.
pub fn validate_language_tag(lang: &str) -> (r: Result<(), RdfEditorError>)
    ensures
        r is Ok <==> spec_language_tag_ok(lang@),
        r matches Err(e) ==> e is InvalidInput,
{
    let chars = chars_of(lang);
    if chars.len() == 0 {
        return Err(RdfEditorError::InvalidInput(String::from_str("Language tag cannot be empty")));
    }
    if contains_char(&chars, '"') || contains_char(&chars, '\\') {
        return Err(RdfEditorError::InvalidInput(String::from_str(
            "Language tag contains invalid characters",
        )));
    }
    proof {
        lemma_dash_index(lang@);
    }
    // Find the first dash; everything before it is the primary subtag.
    let mut d: usize = 0;
    while d < chars.len() && chars[d] != '-'
        invariant
            0 <= d <= chars@.len(),
            chars@ == lang@,
            forall|j: int| 0 <= j < d ==> chars@[j] != '-',
        decreases chars@.len() - d,
    {
        d = d + 1;
    }
    proof {
        assert(d == spec_dash_index(lang@)) by {
            lemma_dash_index(lang@);
            if d < spec_dash_index(lang@) {
                assert(lang@[d as int] == '-');
            }
            if d > spec_dash_index(lang@) {
                assert(lang@[spec_dash_index(lang@)] == '-');
            }
        }
    }
    if d < 2 || d > 3 {
        return Err(RdfEditorError::InvalidInput(String::from_str(
            "Invalid language tag: primary tag should be 2-3 letters",
        )));
    }
    let mut i: usize = 0;
    while i < d
        invariant
            0 <= i <= d,
            d <= chars@.len(),
            chars@ == lang@,
            d == spec_dash_index(lang@),
            forall|j: int| 0 <= j < i ==> spec_is_ascii_alpha(chars@[j]),
        decreases d - i,
    {
        let c = chars[i];
        let code = c as u32;
        if !((65 <= code && code <= 90) || (97 <= code && code <= 122)) {
            proof {
                assert(spec_primary_subtag(lang@)[i as int] == lang@[i as int]);
            }
            return Err(RdfEditorError::InvalidInput(String::from_str(
                "Invalid language tag: primary tag should be 2-3 letters",
            )));
        }
        i = i + 1;
    }
    proof {
        assert forall|j: int| 0 <= j < spec_primary_subtag(lang@).len() implies spec_is_ascii_alpha(
            spec_primary_subtag(lang@)[j],
        ) by {
            assert(spec_primary_subtag(lang@)[j] == lang@[j]);
        }
    }
    Ok(())
}

/// The conditions under which a blank-node identifier is accepted:
/// non-empty, free of space, quote and backslash, and made of alphanumeric
/// characters and underscores only.
pub open spec fn spec_blank_node_id_ok(s: Seq<char>) -> bool {
    &&& s.len() > 0
    &&& !s.contains(' ')
    &&& !s.contains('"')
    &&& !s.contains('\\')
    &&& forall|j: int| 0 <= j < s.len() ==> char_is_alphanumeric(#[trigger] s[j]) || s[j] == '_'
}

/// Accepts a blank-node identifier iff it meets `spec_blank_node_id_ok`.
pub fn validate_blank_node_id(id: &str) -> (r: Result<(), RdfEditorError>)
    ensures
        r is Ok <==> spec_blank_node_id_ok(id@),
        r matches Err(e) ==> e is InvalidInput,
{
    let chars = chars_of(id);
    if chars.len() == 0 {
        return Err(RdfEditorError::InvalidInput(String::from_str("Blank node ID cannot be empty")));
    }
    if contains_char(&chars, ' ') || contains_char(&chars, '"') || contains_char(&chars, '\\') {
        return Err(RdfEditorError::InvalidInput(String::from_str(
            "Blank node ID contains invalid characters",
        )));
    }
    let mut i: usize = 0;
    while i < chars.len()
        invariant
            0 <= i <= chars@.len(),
            chars@ == id@,
            forall|j: int|
                0 <= j < i ==> char_is_alphanumeric(#[trigger] chars@[j]) || chars@[j] == '_',
        decreases chars@.len() - i,
    {
        let c = chars[i];
        if !(is_alphanumeric_char(c) || c == '_') {
            return Err(RdfEditorError::InvalidInput(String::from_str(
                "Invalid blank node ID: use only letters, numbers, and underscores",
            )));
        }
        i = i + 1;
    }
    Ok(())
}

} // verus!
