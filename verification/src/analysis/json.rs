//! A JSON document model and the lookups the crawlers make in it.
use vstd::prelude::*;

use crate::error::LlphaError;
use crate::text::{chars_of, replace_all, replace_chars, split_char, split_char_ranges, range_pieces, string_of, sub_vec, trim, trim_str};

verus! {

/// A JSON value. A number keeps its value when it is a non-negative integer that fits in a
/// `u64`, and nothing otherwise.
#[derive(Debug)]
pub enum JsonValue {
    Null,
    Bool(bool),
    Number(Option<u64>),
    String(String),
    Array(Vec<JsonValue>),
    Object(Vec<(String, JsonValue)>),
}

/// The value stored under a key of an object's entries: the first entry with that key.
pub open spec fn entry_value(es: Seq<(String, JsonValue)>, key: Seq<char>) -> Option<JsonValue>
    decreases es.len(),
{
    if es.len() == 0 {
        None
    } else if es[0].0@ == key {
        Some(es[0].1)
    } else {
        entry_value(es.drop_first(), key)
    }
}

/// `value.get(key)`: the member of an object under a key.
pub open spec fn json_get(v: JsonValue, key: Seq<char>) -> Option<JsonValue> {
    match v {
        JsonValue::Object(es) => entry_value(es@, key),
        _ => None,
    }
}

/// The digits of a token as a number.
pub open spec fn digits_value(t: Seq<char>) -> int
    decreases t.len(),
{
    if t.len() == 0 {
        0
    } else {
        digits_value(t.drop_last()) * 10 + (t.last() as int - '0' as int)
    }
}

/// An array index token: decimal digits, no leading zero unless it is `0`, within `usize`.
pub open spec fn index_token(t: Seq<char>) -> Option<int> {
    if t.len() > 0 && (forall|i: int| 0 <= i < t.len() ==> '0' <= #[trigger] t[i] <= '9') && !(
    t[0] == '0' && t.len() != 1) && digits_value(t) <= usize::MAX {
        Some(digits_value(t))
    } else {
        None
    }
}

/// One step of a JSON pointer.
pub open spec fn pointer_step(v: JsonValue, token: Seq<char>) -> Option<JsonValue> {
    match v {
        JsonValue::Object(es) => entry_value(es@, token),
        JsonValue::Array(items) => match index_token(token) {
            Some(i) => if i < items@.len() {
                Some(items@[i])
            } else {
                None
            },
            None => None,
        },
        _ => None,
    }
}

/// The value reached by following the tokens in turn.
pub open spec fn follow_tokens(v: JsonValue, toks: Seq<Seq<char>>) -> Option<JsonValue>
    decreases toks.len(),
{
    if toks.len() == 0 {
        Some(v)
    } else {
        match pointer_step(v, toks[0]) {
            Some(w) => follow_tokens(w, toks.drop_first()),
            None => None,
        }
    }
}

/// A pointer token with `~1` read as `/` and then `~0` as `~`.
pub open spec fn unescape_token(t: Seq<char>) -> Seq<char> {
    replace_all(replace_all(t, "~1"@, "/"@), "~0"@, "~"@)
}

/// The tokens of a pointer that starts with `/`.
pub open spec fn pointer_tokens(p: Seq<char>) -> Seq<Seq<char>> {
    split_char(p.drop_first(), '/').map_values(|t: Seq<char>| unescape_token(t))
}

/// JSON pointer lookup (RFC 6901): the whole value for an empty pointer, nothing for one that
/// does not start with `/`.
pub open spec fn json_pointer(v: JsonValue, p: Seq<char>) -> Option<JsonValue> {
    if p.len() == 0 {
        Some(v)
    } else if p[0] != '/' {
        None
    } else {
        follow_tokens(v, pointer_tokens(p))
    }
}

/// The text of a string value.
pub open spec fn json_str(v: Option<JsonValue>) -> Option<Seq<char>> {
    match v {
        Some(JsonValue::String(s)) => Some(s@),
        _ => None,
    }
}

/// The trimmed text of a string value, when it is not empty.
pub open spec fn nonempty_trimmed(v: Option<JsonValue>) -> Option<Seq<char>> {
    match json_str(v) {
        Some(s) => if trim(s).len() > 0 {
            Some(trim(s))
        } else {
            None
        },
        None => None,
    }
}

impl JsonValue {
    /// `value.get(key)`.
    pub fn get(&self, key: &str) -> (r: Option<&JsonValue>)
        ensures
            r matches Some(x) ==> json_get(*self, key@) == Some(*x),
            r is None ==> json_get(*self, key@) is None,
    {
        match self {
            JsonValue::Object(es) => {
                let mut i: usize = 0;
                assert(es@.skip(0) =~= es@);
                while i < es.len()
                    invariant
                        i <= es@.len(),
                        json_get(*self, key@) == entry_value(es@, key@),
                        entry_value(es@, key@) == entry_value(es@.skip(i as int), key@),
                    decreases es@.len() - i,
                {
                    assert(es@.skip(i as int).drop_first() =~= es@.skip(i + 1));
                    assert(es@.skip(i as int)[0] == es@[i as int]);
                    if crate::text::str_eq(es[i].0.as_str(), key) {
                        assert(es@.skip(i as int)[0].0@ == key@);
                        assert(entry_value(es@.skip(i as int), key@) == Some(es@[i as int].1));
                        return Some(&es[i].1);
                    }
                    i = i + 1;
                }
                assert(es@.skip(i as int).len() == 0);
                None
            },
            _ => None,
        }
    }

    /// `value.as_str()`.
    pub fn as_str(&self) -> (r: Option<&str>)
        ensures
            r matches Some(s) ==> json_str(Some(*self)) == Some(s@),
            r is None ==> json_str(Some(*self)) is None,
    {
        match self {
            JsonValue::String(s) => Some(s.as_str()),
            _ => None,
        }
    }

    /// `value.as_u64()`.
    pub fn as_u64(&self) -> (r: Option<u64>)
        ensures
            r == (match *self {
                JsonValue::Number(n) => n,
                _ => None,
            }),
    {
        match self {
            JsonValue::Number(n) => *n,
            _ => None,
        }
    }

    /// `value.as_array()`.
    pub fn as_array(&self) -> (r: Option<&Vec<JsonValue>>)
        ensures
            r matches Some(a) ==> *self == JsonValue::Array(*a),
            r is None ==> !(*self is Array),
    {
        match self {
            JsonValue::Array(a) => Some(a),
            _ => None,
        }
    }

    fn step(&self, token: &[char]) -> (r: Option<&JsonValue>)
        ensures
            r matches Some(x) ==> pointer_step(*self, token@) == Some(*x),
            r is None ==> pointer_step(*self, token@) is None,
    {
        match self {
            JsonValue::Object(_) => {
                let t = string_of(token);
                self.get(t.as_str())
            },
            JsonValue::Array(items) => match parse_index(token) {
                Some(i) => {
                    if i < items.len() {
                        Some(&items[i])
                    } else {
                        None
                    }
                },
                None => None,
            },
            _ => None,
        }
    }

    /// `value.pointer(p)`: JSON pointer lookup.
    pub fn pointer(&self, p: &str) -> (r: Option<&JsonValue>)
        ensures
            r matches Some(x) ==> json_pointer(*self, p@) == Some(*x),
            r is None ==> json_pointer(*self, p@) is None,
    {
        let cs = chars_of(p);
        if cs.len() == 0 {
            return Some(self);
        }
        if cs[0] != '/' {
            return None;
        }
        let rest = sub_vec(&cs, 1, cs.len());
        assert(rest@ =~= p@.drop_first());
        let ranges = split_char_ranges(&rest, '/');
        let ghost toks = pointer_tokens(p@);
        let tilde1 = chars_of("~1");
        let slash = chars_of("/");
        let tilde0 = chars_of("~0");
        let tilde = chars_of("~");
        proof {
            reveal_strlit("~1");
            reveal_strlit("~0");
        }
        let mut cur: &JsonValue = self;
        let mut k: usize = 0;
        assert(toks.skip(0) =~= toks);
        assert(toks.len() == ranges@.len());
        while k < ranges.len()
            invariant
                k <= ranges@.len(),
                range_pieces(rest@, ranges@) == split_char(rest@, '/'),
                forall|j: int| 0 <= j < ranges@.len() ==> (#[trigger] ranges@[j]).0 <= ranges@[j].1 <= rest@.len(),
                toks == split_char(rest@, '/').map_values(|t: Seq<char>| unescape_token(t)),
                tilde1@ == "~1"@,
                slash@ == "/"@,
                tilde0@ == "~0"@,
                tilde@ == "~"@,
                "~1"@.len() > 0,
                "~0"@.len() > 0,
                toks.len() == ranges@.len(),
                json_pointer(*self, p@) == follow_tokens(*self, toks),
                follow_tokens(*self, toks) == follow_tokens(*cur, toks.skip(k as int)),
            decreases ranges@.len() - k,
        {
            let (a, b) = ranges[k];
            let piece = sub_vec(&rest, a, b);
            assert(piece@ == range_pieces(rest@, ranges@)[k as int]);
            let once = replace_chars(&piece, &tilde1, &slash);
            let token = replace_chars(&once, &tilde0, &tilde);
            assert(token@ == toks[k as int]);
            assert(toks.skip(k as int).drop_first() =~= toks.skip(k + 1));
            assert(toks.skip(k as int)[0] == toks[k as int]);
            match cur.step(&token) {
                Some(next) => {
                    cur = next;
                },
                None => {
                    return None;
                },
            }
            k = k + 1;
        }
        assert(toks.skip(k as int).len() == 0);
        Some(cur)
    }
}

/// An array index token as a number, as `serde_json` reads it.
fn parse_index(t: &[char]) -> (r: Option<usize>)
    ensures
        r matches Some(i) ==> index_token(t@) == Some(i as int),
        r is None ==> index_token(t@) is None,
{
    let n = t.len();
    if n == 0 {
        return None;
    }
    if t[0] == '0' && n != 1 {
        return None;
    }
    let mut v: usize = 0;
    let mut i: usize = 0;
    while i < n
        invariant
            i <= n,
            n == t@.len(),
            forall|j: int| 0 <= j < i ==> '0' <= #[trigger] t@[j] <= '9',
            v == digits_value(t@.take(i as int)),
        decreases n - i,
    {
        let c = t[i];
        if !('0' <= c && c <= '9') {
            return None;
        }
        let d: usize = (c as u32 - '0' as u32) as usize;
        assert(t@.take(i + 1).drop_last() =~= t@.take(i as int));
        assert(t@.take(i + 1).last() == c);
        assert(digits_value(t@.take(i + 1)) == v * 10 + d);
        assert(d <= 9);
        if v > (usize::MAX - d) / 10 {
            proof {
                if forall|j: int| 0 <= j < t@.len() ==> '0' <= #[trigger] t@[j] <= '9' {
                    lemma_digits_monotone(t@, (i + 1) as nat);
                }
                assert(digits_value(t@.take(i + 1)) > usize::MAX) by (nonlinear_arith)
                    requires
                        v > (usize::MAX - d) / 10,
                        digits_value(t@.take(i + 1)) == v * 10 + d,
                        d <= 9,
                ;
            }
            return None;
        }
        v = v * 10 + d;
        i = i + 1;
    }
    assert(t@.take(n as int) =~= t@);
    Some(v)
}

/// The value of digits is never negative.
proof fn lemma_digits_nonneg(t: Seq<char>)
    requires
        forall|j: int| 0 <= j < t.len() ==> '0' <= #[trigger] t[j] <= '9',
    ensures
        digits_value(t) >= 0,
    decreases t.len(),
{
    if t.len() > 0 {
        lemma_digits_nonneg(t.drop_last());
    }
}

/// The value of a prefix of digits never exceeds the value of the whole.
pub(crate) proof fn lemma_digits_monotone(t: Seq<char>, k: nat)
    requires
        k <= t.len(),
        forall|j: int| 0 <= j < t.len() ==> '0' <= #[trigger] t[j] <= '9',
    ensures
        digits_value(t.take(k as int)) <= digits_value(t),
    decreases t.len() - k,
{
    if k < t.len() {
        lemma_digits_monotone(t, (k + 1) as nat);
        assert(t.take((k + 1) as int).drop_last() =~= t.take(k as int));
        lemma_digits_nonneg(t.take(k as int));
        assert(digits_value(t.take((k + 1) as int)) >= digits_value(t.take(k as int)));
    } else {
        assert(t.take(k as int) =~= t);
    }
}

/// The non-empty trimmed string at a pointer; fails with [`LlphaError::JsonMissingString`].
pub fn required_json_string(value: &JsonValue, pointer: &str) -> (r: Result<String, LlphaError>)
    ensures
        match nonempty_trimmed(json_pointer(*value, pointer@)) {
            Some(s) => r matches Ok(x) && x@ == s,
            None => r == Err::<String, LlphaError>(LlphaError::JsonMissingString),
        },
{
    match value.pointer(pointer) {
        Some(v) => match v.as_str() {
            Some(s) => {
                let t = trim_str(s);
                if t.as_str().is_empty() {
                    Err(LlphaError::JsonMissingString)
                } else {
                    Ok(t)
                }
            },
            None => Err(LlphaError::JsonMissingString),
        },
        None => Err(LlphaError::JsonMissingString),
    }
}

/// The array at a pointer; fails with [`LlphaError::JsonMissingArray`].
pub fn required_json_array<'a>(value: &'a JsonValue, pointer: &str) -> (r: Result<&'a Vec<JsonValue>, LlphaError>)
    ensures
        match json_pointer(*value, pointer@) {
            Some(JsonValue::Array(a)) => r matches Ok(x) && *x == a,
            _ => r == Err::<&Vec<JsonValue>, LlphaError>(LlphaError::JsonMissingArray),
        },
{
    match value.pointer(pointer) {
        Some(v) => match v.as_array() {
            Some(a) => Ok(a),
            None => Err(LlphaError::JsonMissingArray),
        },
        None => Err(LlphaError::JsonMissingArray),
    }
}

/// The non-empty trimmed string under a key of an array item; fails with
/// [`LlphaError::JsonMissingString`].
pub fn required_json_item_string(item: &JsonValue, key: &str) -> (r: Result<String, LlphaError>)
    ensures
        match nonempty_trimmed(json_get(*item, key@)) {
            Some(s) => r matches Ok(x) && x@ == s,
            None => r == Err::<String, LlphaError>(LlphaError::JsonMissingString),
        },
{
    match item.get(key) {
        Some(v) => match v.as_str() {
            Some(s) => {
                let t = trim_str(s);
                if t.as_str().is_empty() {
                    Err(LlphaError::JsonMissingString)
                } else {
                    Ok(t)
                }
            },
            None => Err(LlphaError::JsonMissingString),
        },
        None => Err(LlphaError::JsonMissingString),
    }
}

} // verus!
