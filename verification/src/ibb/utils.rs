//! Helpers shared by the ImgBB workflow: path segments, URL input and page tokens.
use vstd::prelude::*;

use super::ImgbbError;
use crate::text::{
    char_is_control, chars_of, dot_space_pred, find, find_char, find_char_from, find_chars,
    is_control, lemma_find_char_from, lemma_trim_by_unchanged, lemma_trim_by_within, push_str,
    starts_with, str_starts_with, string_of, string_of_range, sub_vec, trim, trim_bounds, trim_by,
    trim_chars, trim_str, ws_pred, TrimSet,
};

verus! {

/// Characters that cannot stand in a file name.
pub open spec fn is_path_unsafe(c: char) -> bool {
    c == '/' || c == '\\' || c == ':' || c == '*' || c == '?' || c == '"' || c == '<' || c
        == '>' || c == '|' || is_control(c)
}

/// The replacement for one character of a path segment.
pub open spec fn sanitize_char_spec(c: char) -> char {
    if is_path_unsafe(c) {
        '_'
    } else {
        c
    }
}

/// Replaces characters that are not fit for a file name by `_`.
pub fn sanitize_path_char(ch: char) -> (r: char)
    ensures
        r == sanitize_char_spec(ch),
{
    if ch == '/' || ch == '\\' || ch == ':' || ch == '*' || ch == '?' || ch == '"' || ch == '<'
        || ch == '>' || ch == '|' || char_is_control(ch) {
        '_'
    } else {
        ch
    }
}

/// A cleaned path segment: trimmed, unsafe characters replaced, then leading and trailing
/// dots and spaces removed.
pub open spec fn sanitize_segment(s: Seq<char>) -> Seq<char> {
    let t = trim(s);
    trim_by(Seq::new(t.len(), |i: int| sanitize_char_spec(t[i])), dot_space_pred())
}

/// Cleans a directory or file name.
pub fn sanitize_path_segment(value: &str) -> (r: String)
    ensures
        r@ == sanitize_segment(value@),
{
    let cs = chars_of(value);
    let t = trim_chars(&cs);
    let mut mapped: Vec<char> = Vec::new();
    let mut i: usize = 0;
    while i < t.len()
        invariant
            i <= t@.len(),
            mapped@ == Seq::new(i as nat, |k: int| sanitize_char_spec(t@[k])),
        decreases t@.len() - i,
    {
        mapped.push(sanitize_path_char(t[i]));
        i = i + 1;
        assert(mapped@ =~= Seq::new(i as nat, |k: int| sanitize_char_spec(t@[k])));
    }
    let (a, b) = trim_bounds(&mapped, TrimSet::DotSpace);
    string_of_range(&mapped, a, b)
}

/// A cleaned segment holds no character unfit for a file name, neither starts nor ends with a
/// dot or a space (so it is never `.` or `..`), and cleaning it again changes nothing when the
/// name was ASCII.
pub proof fn law_clean_segment(s: Seq<char>)
    ensures
        forall|i: int|
            0 <= i < sanitize_segment(s).len() ==> !is_path_unsafe(#[trigger] sanitize_segment(s)[i]),
        sanitize_segment(s).len() > 0 ==> {
            let r = sanitize_segment(s);
            &&& r[0] != '.' && r[0] != ' '
            &&& r.last() != '.' && r.last() != ' '
        },
        (forall|i: int| 0 <= i < s.len() ==> #[trigger] s[i] <= '\u{7f}') ==> sanitize_segment(
            sanitize_segment(s),
        ) == sanitize_segment(s),
{
    let t = trim(s);
    let ta = lemma_trim_by_within(s, ws_pred());
    let m = Seq::new(t.len(), |i: int| sanitize_char_spec(t[i]));
    let ma = lemma_trim_by_within(m, dot_space_pred());
    let r = sanitize_segment(s);
    assert(r == trim_by(m, dot_space_pred()));
    assert forall|i: int| 0 <= i < r.len() implies !is_path_unsafe(#[trigger] r[i]) by {
        assert(r[i] == m[ma + i]);
    }
    if forall|i: int| 0 <= i < s.len() ==> #[trigger] s[i] <= '\u{7f}' {
        assert forall|i: int| 0 <= i < r.len() implies #[trigger] r[i] <= '\u{7f}' by {
            assert(r[i] == m[ma + i]);
            assert(t[ma + i] == s[ta + ma + i]);
        }
        if r.len() > 0 {
            assert(!is_path_unsafe(r[0]) && r[0] <= '\u{7f}');
            assert(!is_path_unsafe(r.last()) && r.last() <= '\u{7f}');
        }
        lemma_trim_by_unchanged(r, ws_pred());
        assert(Seq::new(r.len(), |i: int| sanitize_char_spec(r[i])) =~= r);
        lemma_trim_by_unchanged(r, dot_space_pred());
    }
}

/// The scheme prefixes that a URL may already carry.
pub open spec fn has_http_scheme(s: Seq<char>) -> bool {
    starts_with(s, "http://"@) || starts_with(s, "https://"@)
}

/// A URL input with surrounding whitespace removed and `https://` added when no scheme is given.
pub open spec fn normalized_url_input(s: Seq<char>) -> Seq<char> {
    if has_http_scheme(trim(s)) {
        trim(s)
    } else {
        "https://"@ + trim(s)
    }
}

/// Adds the `https://` scheme to a URL input that has none.
pub fn normalize_url_input(input: &str) -> (r: String)
    ensures
        r@ == normalized_url_input(input@),
{
    let t = trim_str(input);
    if str_starts_with(t.as_str(), "http://") || str_starts_with(t.as_str(), "https://") {
        t
    } else {
        let mut out = chars_of("https://");
        push_str(&mut out, t.as_str());
        string_of(&out)
    }
}

/// The text between a marker and the next `"`: the value of a quoted script field.
pub open spec fn quoted_after(html: Seq<char>, marker: Seq<char>) -> Option<Option<Seq<char>>> {
    match find(html, marker) {
        None => None,
        Some(i) => {
            let rest = html.skip(i + marker.len());
            match find_char_from(rest, '"', 0) {
                None => Some(None),
                Some(e) => Some(Some(rest.take(e))),
            }
        },
    }
}

/// Reads the quoted value that follows a marker: `None` when the marker is absent,
/// `Some(None)` when the value is not terminated.
pub fn quoted_value_after(html: &[char], marker: &[char]) -> (r: Option<Option<Vec<char>>>)
    ensures
        r matches Some(Some(v)) ==> quoted_after(html@, marker@) == Some(Some(v@)),
        r matches Some(None) ==> quoted_after(html@, marker@) == Some(None::<Seq<char>>),
        r is None ==> quoted_after(html@, marker@) is None,
{
    let hl: usize = html.len();
    match find_chars(html, marker) {
        None => None,
        Some(i) => {
            proof {
                crate::text::lemma_find_from(html@, marker@, 0);
            }
            assert(i + marker@.len() <= hl);
            let start = i + marker.len();
            let rest = sub_vec(html, start, html.len());
            assert(rest@ =~= html@.skip(start as int));
            match find_char(&rest, '"', 0) {
                None => Some(None),
                Some(e) => {
                    proof {
                        lemma_find_char_from(rest@, '"', 0);
                    }
                    let v = sub_vec(&rest, 0, e);
                    assert(v@ =~= rest@.take(e as int));
                    Some(Some(v))
                },
            }
        },
    }
}

/// The marker in front of the page's dynamic `auth_token`.
pub open spec fn auth_token_marker() -> Seq<char> {
    "PF.obj.config.auth_token=\""@
}

/// What [`extract_auth_token`] gives for a page.
pub open spec fn auth_token_spec(html: Seq<char>) -> Result<Seq<char>, ImgbbError> {
    match quoted_after(html, auth_token_marker()) {
        None => Err(ImgbbError::AuthTokenMissing),
        Some(None) => Err(ImgbbError::AuthTokenMalformed),
        Some(Some(v)) => if v.len() == 0 {
            Err(ImgbbError::AuthTokenEmpty)
        } else {
            Ok(v)
        },
    }
}

/// Reads the dynamic `auth_token` from a page's script.
pub fn extract_auth_token(html: &str) -> (r: Result<String, ImgbbError>)
    ensures
        r matches Ok(v) ==> auth_token_spec(html@) == Ok::<Seq<char>, ImgbbError>(v@),
        r matches Err(e) ==> auth_token_spec(html@) == Err::<Seq<char>, ImgbbError>(e),
{
    let h = chars_of(html);
    let m = chars_of("PF.obj.config.auth_token=\"");
    match quoted_value_after(&h, &m) {
        None => Err(ImgbbError::AuthTokenMissing),
        Some(None) => Err(ImgbbError::AuthTokenMalformed),
        Some(Some(v)) => {
            if v.len() == 0 {
                Err(ImgbbError::AuthTokenEmpty)
            } else {
                Ok(string_of(&v))
            }
        },
    }
}

} // verus!
