//! A small JSON value model and a verified text parser for it.
//!
//! Provider responses arrive as raw text in incompatible shapes, so the
//! pipeline needs to inspect arbitrary JSON trees. `JsonValue` is the
//! executable tree; `JVal` is its mathematical mirror used in contracts.
//!
//! The accepted dialect is standard JSON with two documented restrictions:
//! numbers are kept only when they are integers that fit in `i64` (other
//! numbers parse but read as `Null`, which is how the pipeline treats a
//! field it cannot coerce), and `\u` escapes must denote Unicode scalar
//! values (unpaired surrogates are rejected). Leading zeros in numbers are
//! tolerated. Duplicate object keys keep the position of the first and the
//! value of the last occurrence.

use vstd::prelude::*;

use crate::assoc::{
    assoc_lookup, assoc_set, lemma_assoc_lookup_absent, lemma_assoc_lookup_found,
    lemma_assoc_set_absent, lemma_assoc_set_found,
};
use crate::text::{chars_of, is_space, is_space_exec, string_of};

verus! {

/// An executable JSON tree.
pub enum JsonValue {
    Null,
    Bool(bool),
    Int(i64),
    Str(String),
    Arr(Vec<JsonValue>),
    Obj(Vec<(String, JsonValue)>),
}

/// The mathematical mirror of [`JsonValue`], used in specifications.
pub enum JVal {
    Null,
    Bool(bool),
    Int(int),
    Str(Seq<char>),
    Arr(Seq<JVal>),
    Obj(Seq<(Seq<char>, JVal)>),
}

/// The mathematical values of a vector of JSON trees, elementwise.
pub open spec fn aview(items: Seq<JsonValue>) -> Seq<JVal>
    decreases items,
{
    if items.len() == 0 {
        Seq::empty()
    } else {
        aview(items.drop_last()).push(jview(items.last()))
    }
}

/// The mathematical values of an object's field vector, elementwise.
pub open spec fn fview(fields: Seq<(String, JsonValue)>) -> Seq<(Seq<char>, JVal)>
    decreases fields,
{
    if fields.len() == 0 {
        Seq::empty()
    } else {
        fview(fields.drop_last()).push((fields.last().0@, jview(fields.last().1)))
    }
}

/// The mathematical value of a JSON tree.
pub open spec fn jview(v: JsonValue) -> JVal
    decreases v,
{
    match v {
        JsonValue::Null => JVal::Null,
        JsonValue::Bool(b) => JVal::Bool(b),
        JsonValue::Int(n) => JVal::Int(n as int),
        JsonValue::Str(s) => JVal::Str(s@),
        JsonValue::Arr(items) => JVal::Arr(aview(items@)),
        JsonValue::Obj(fields) => JVal::Obj(fview(fields@)),
    }
}

pub proof fn lemma_aview_index(items: Seq<JsonValue>)
    ensures
        aview(items).len() == items.len(),
        forall|k: int| 0 <= k < items.len() ==> aview(items)[k] == jview(items[k]),
    decreases items.len(),
{
    if items.len() > 0 {
        lemma_aview_index(items.drop_last());
    }
}

pub proof fn lemma_fview_index(fields: Seq<(String, JsonValue)>)
    ensures
        fview(fields).len() == fields.len(),
        forall|k: int|
            0 <= k < fields.len() ==> fview(fields)[k] == (fields[k].0@, jview(fields[k].1)),
    decreases fields.len(),
{
    if fields.len() > 0 {
        lemma_fview_index(fields.drop_last());
    }
}

impl View for JsonValue {
    type V = JVal;

    open spec fn view(&self) -> JVal {
        jview(*self)
    }
}

/// The value of field `key` when `v` is an object holding it.
pub open spec fn jget(v: JVal, key: Seq<char>) -> Option<JVal> {
    match v {
        JVal::Obj(fields) => assoc_lookup(fields, key),
        _ => None,
    }
}

impl JsonValue {
    /// Looks up a field of an object; `None` on other shapes or a missing key.
    #[verifier::loop_isolation(false)]
    pub fn get<'a>(&'a self, key: &String) -> (r: Option<&'a JsonValue>)
        ensures
            match r {
                Some(v) => jget(self@, key@) == Some(v@),
                None => jget(self@, key@) is None,
            },
    {
        match self {
            JsonValue::Obj(fields) => {
                let ghost fseq = fview(fields@);
                proof {
                    lemma_fview_index(fields@);
                }
                assert(self@ == JVal::Obj(fseq));
                let mut i: usize = 0;
                while i < fields.len()
                    invariant
                        i <= fields.len(),
                        fseq == fview(fields@),
                        fseq.len() == fields@.len(),
                        forall|k: int|
                            0 <= k < fields@.len() ==> fseq[k] == (
                                fields@[k].0@,
                                jview(fields@[k].1),
                            ),
                        forall|j: int| 0 <= j < i ==> fseq[j].0 != key@,
                    decreases fields.len() - i,
                {
                    assert(fseq[i as int] == (fields@[i as int].0@, jview(fields@[i as int].1)));
                    if fields[i].0.eq(key) {
                        proof {
                            lemma_assoc_lookup_found(fseq, key@, i as int);
                        }
                        return Some(&fields[i].1);
                    }
                    i = i + 1;
                }
                proof {
                    lemma_assoc_lookup_absent(fseq, key@);
                }
                None
            },
            _ => None,
        }
    }

    /// The string content when this is a JSON string.
    pub fn as_str<'a>(&'a self) -> (r: Option<&'a String>)
        ensures
            match r {
                Some(s) => self@ == JVal::Str(s@),
                None => !(self@ is Str),
            },
    {
        match self {
            JsonValue::Str(s) => Some(s),
            _ => None,
        }
    }

    /// The integer content when this is a JSON integer.
    pub fn as_i64(&self) -> (r: Option<i64>)
        ensures
            match r {
                Some(n) => self@ == JVal::Int(n as int),
                None => !(self@ is Int),
            },
    {
        match self {
            JsonValue::Int(n) => Some(*n),
            _ => None,
        }
    }

    /// Whether this is a JSON object.
    pub fn is_object(&self) -> (r: bool)
        ensures
            r == (self@ is Obj),
    {
        match self {
            JsonValue::Obj(_) => true,
            _ => false,
        }
    }

    /// Whether this is a JSON array.
    pub fn is_array(&self) -> (r: bool)
        ensures
            r == (self@ is Arr),
    {
        match self {
            JsonValue::Arr(_) => true,
            _ => false,
        }
    }
}

/// Binds `key` to `val` in an object's field vector, replacing the first
/// existing binding or appending a new one.
#[verifier::loop_isolation(false)]
pub fn set_field(fields: &mut Vec<(String, JsonValue)>, key: String, val: JsonValue)
    ensures
        fview(final(fields)@) =~= assoc_set(fview(old(fields)@), key@, jview(val)),
{
    let ghost fseq = fview(fields@);
    let ghost kview = key@;
    let ghost vview = jview(val);
    proof {
        lemma_fview_index(fields@);
    }
    let mut i: usize = 0;
    while i < fields.len()
        invariant
            i <= fields.len(),
            fseq == fview(fields@),
            fseq.len() == fields@.len(),
            forall|k: int|
                0 <= k < fields@.len() ==> fseq[k] == (fields@[k].0@, jview(fields@[k].1)),
            forall|j: int| 0 <= j < i ==> fseq[j].0 != kview,
        decreases fields.len() - i,
    {
        assert(fseq[i as int] == (fields@[i as int].0@, jview(fields@[i as int].1)));
        if fields[i].0.eq(&key) {
            proof {
                lemma_assoc_set_found(fseq, kview, vview, i as int);
            }
            fields.set(i, (key, val));
            proof {
                lemma_fview_index(fields@);
            }
            assert(fview(fields@) =~= fseq.update(i as int, (kview, vview)));
            return ;
        }
        i = i + 1;
    }
    proof {
        lemma_assoc_set_absent(fseq, kview, vview);
    }
    fields.push((key, val));
    proof {
        lemma_fview_index(fields@);
    }
    assert(fview(fields@) =~= fseq.push((kview, vview)));
}


// ------------------------------------------------------------------
// The parser.
//
// Every parsing function exists twice: a spec function that defines what
// the text means, and an executable mirror proved equal to it. The spec
// functions carry explicit bounds guards (such as `if p <= j { None }`) so
// that their termination is structural; the executable parser proves that
// the guarded branches are never the ones taken.
// ------------------------------------------------------------------

/// The first position at or after `i` holding a non-whitespace character.
pub open spec fn skip_ws(s: Seq<char>, i: int) -> int
    decreases s.len() - i,
{
    if i < 0 || i >= s.len() {
        i
    } else if is_space(s[i]) {
        skip_ws(s, i + 1)
    } else {
        i
    }
}

/// Whether `lit` occurs in `s` starting exactly at position `i`.
pub open spec fn lit_at(s: Seq<char>, i: int, lit: Seq<char>) -> bool {
    &&& 0 <= i
    &&& i + lit.len() <= s.len()
    &&& forall|k: int| 0 <= k < lit.len() ==> s[i + k] == lit[k]
}

/// Whether `c` is a decimal digit.
pub open spec fn is_digit(c: char) -> bool {
    48 <= c as u32 <= 57
}

/// The value of a decimal digit character.
pub open spec fn digit_val(c: char) -> int {
    c as u32 - 48
}

/// The first position at or after `i` holding a non-digit character.
pub open spec fn scan_digits(s: Seq<char>, i: int) -> int
    decreases s.len() - i,
{
    if i < 0 || i >= s.len() {
        i
    } else if is_digit(s[i]) {
        scan_digits(s, i + 1)
    } else {
        i
    }
}

/// The number denoted by the digit run `s[i..j)`, folded onto `acc`.
pub open spec fn digits_val(s: Seq<char>, i: int, j: int, acc: int) -> int
    decreases j - i,
{
    if i < 0 || i >= j {
        acc
    } else {
        digits_val(s, i + 1, j, acc * 10 + digit_val(s[i]))
    }
}

/// Whether `c` is a hexadecimal digit.
pub open spec fn is_hex_digit(c: char) -> bool {
    ||| 48 <= c as u32 <= 57
    ||| 97 <= c as u32 <= 102
    ||| 65 <= c as u32 <= 70
}

/// The value of a hexadecimal digit character.
pub open spec fn hex_val(c: char) -> int {
    if 48 <= c as u32 <= 57 {
        c as u32 - 48
    } else if 97 <= c as u32 <= 102 {
        c as u32 - 97 + 10
    } else {
        c as u32 - 65 + 10
    }
}

/// The character denoted by a single-letter escape, `None` when the letter
/// is not a recognized escape.
pub open spec fn esc_char(c: char) -> Option<char> {
    if c == '"' {
        Some('"')
    } else if c == '\\' {
        Some('\\')
    } else if c == '/' {
        Some('/')
    } else if c == 'b' {
        Some('\u{8}')
    } else if c == 'f' {
        Some('\u{c}')
    } else if c == 'n' {
        Some('\n')
    } else if c == 'r' {
        Some('\r')
    } else if c == 't' {
        Some('\t')
    } else {
        None
    }
}

/// Whether `u` is a Unicode scalar value.
pub open spec fn is_scalar_code(u: int) -> bool {
    (0 <= u < 0xD800) || (0xE000 <= u <= 0x10FFFF)
}

/// The content of a string literal whose opening quote stands just before
/// position `i`, together with the position after the closing quote;
/// `acc` is the content decoded so far.
pub open spec fn parse_str_acc(s: Seq<char>, i: int, acc: Seq<char>) -> Option<(Seq<char>, int)>
    decreases s.len() - i,
{
    if i < 0 || i >= s.len() {
        None
    } else if s[i] == '"' {
        Some((acc, i + 1))
    } else if s[i] == '\\' {
        if i + 1 >= s.len() {
            None
        } else {
            let e = s[i + 1];
            if e == 'u' {
                if i + 6 <= s.len() && is_hex_digit(s[i + 2]) && is_hex_digit(s[i + 3])
                    && is_hex_digit(s[i + 4]) && is_hex_digit(s[i + 5]) {
                    let u = ((hex_val(s[i + 2]) * 16 + hex_val(s[i + 3])) * 16 + hex_val(
                        s[i + 4],
                    )) * 16 + hex_val(s[i + 5]);
                    if is_scalar_code(u) {
                        parse_str_acc(s, i + 6, acc.push((u as u32) as char))
                    } else {
                        None
                    }
                } else {
                    None
                }
            } else {
                match esc_char(e) {
                    Some(c) => parse_str_acc(s, i + 2, acc.push(c)),
                    None => None,
                }
            }
        }
    } else if (s[i] as u32) < 32 {
        None
    } else {
        parse_str_acc(s, i + 1, acc.push(s[i]))
    }
}

/// The position after an optional fraction part at `p`, and whether the
/// number is still an integer; `None` when a fraction is malformed.
pub open spec fn after_frac(s: Seq<char>, p: int) -> Option<(int, bool)> {
    if 0 <= p < s.len() && s[p] == '.' {
        let f = scan_digits(s, p + 1);
        if f == p + 1 {
            None
        } else {
            Some((f, false))
        }
    } else {
        Some((p, true))
    }
}

/// The position after an optional exponent part at `p`, and whether the
/// number is still an integer; `None` when an exponent is malformed.
pub open spec fn after_exp(s: Seq<char>, p: int) -> Option<(int, bool)> {
    if 0 <= p < s.len() && (s[p] == 'e' || s[p] == 'E') {
        let q = if p + 1 < s.len() && (s[p + 1] == '+' || s[p + 1] == '-') {
            p + 2
        } else {
            p + 1
        };
        let f = scan_digits(s, q);
        if f == q {
            None
        } else {
            Some((f, false))
        }
    } else {
        Some((p, true))
    }
}

/// The JSON number starting at `i`: an integer that fits in `i64` keeps its
/// value, any other well-formed number reads as `Null`.
pub open spec fn spec_parse_number(s: Seq<char>, i: int) -> Option<(JVal, int)> {
    let neg = 0 <= i < s.len() && s[i] == '-';
    let d0 = if neg {
        i + 1
    } else {
        i
    };
    let dend = scan_digits(s, d0);
    if dend == d0 {
        None
    } else {
        match after_frac(s, dend) {
            None => None,
            Some((p1, int1)) => match after_exp(s, p1) {
                None => None,
                Some((p2, int2)) => {
                    let mag = digits_val(s, d0, dend, 0);
                    let v = if neg {
                        -mag
                    } else {
                        mag
                    };
                    let jv = if int1 && int2 && -0x8000000000000000 <= v <= 0x7FFFFFFFFFFFFFFF {
                        JVal::Int(v)
                    } else {
                        JVal::Null
                    };
                    Some((jv, p2))
                },
            },
        }
    }
}

/// The JSON value starting at position `i` (after optional whitespace),
/// with the position just past it.
pub open spec fn spec_parse_value(s: Seq<char>, i: int) -> Option<(JVal, int)>
    decreases s.len() - i, 1int,
{
    let j = skip_ws(s, i);
    if j < i || j >= s.len() {
        None
    } else if lit_at(s, j, "null"@) {
        Some((JVal::Null, j + 4))
    } else if lit_at(s, j, "true"@) {
        Some((JVal::Bool(true), j + 4))
    } else if lit_at(s, j, "false"@) {
        Some((JVal::Bool(false), j + 5))
    } else if s[j] == '"' {
        match parse_str_acc(s, j + 1, Seq::empty()) {
            Some((cs, p)) => Some((JVal::Str(cs), p)),
            None => None,
        }
    } else if s[j] == '[' {
        match spec_parse_elems(s, j + 1, Seq::empty(), true) {
            Some((items, p)) => Some((JVal::Arr(items), p)),
            None => None,
        }
    } else if s[j] == '{' {
        match spec_parse_members(s, j + 1, Seq::empty(), true) {
            Some((fs, p)) => Some((JVal::Obj(fs), p)),
            None => None,
        }
    } else if s[j] == '-' || is_digit(s[j]) {
        spec_parse_number(s, j)
    } else {
        None
    }
}

/// The remaining elements of an array whose opening bracket (or last comma)
/// stands just before position `i`; `acc` holds the elements parsed so far
/// and `first` says whether a closing bracket may come without an element.
pub open spec fn spec_parse_elems(s: Seq<char>, i: int, acc: Seq<JVal>, first: bool) -> Option<
    (Seq<JVal>, int),
>
    decreases s.len() - i, 2int,
{
    let j = skip_ws(s, i);
    if j < i || j >= s.len() {
        None
    } else if s[j] == ']' {
        if first {
            Some((acc, j + 1))
        } else {
            None
        }
    } else {
        match spec_parse_value(s, j) {
            None => None,
            Some((v, p)) => if p <= j || p > s.len() {
                None
            } else {
                let q = skip_ws(s, p);
                if q < p || q >= s.len() {
                    None
                } else if s[q] == ',' {
                    spec_parse_elems(s, q + 1, acc.push(v), false)
                } else if s[q] == ']' {
                    Some((acc.push(v), q + 1))
                } else {
                    None
                }
            },
        }
    }
}

/// The remaining fields of an object whose opening brace (or last comma)
/// stands just before position `i`; `acc` holds the fields parsed so far
/// (a later duplicate key replaces the earlier value in place) and `first`
/// says whether a closing brace may come without a field.
pub open spec fn spec_parse_members(
    s: Seq<char>,
    i: int,
    acc: Seq<(Seq<char>, JVal)>,
    first: bool,
) -> Option<(Seq<(Seq<char>, JVal)>, int)>
    decreases s.len() - i, 2int,
{
    let j = skip_ws(s, i);
    if j < i || j >= s.len() {
        None
    } else if s[j] == '}' {
        if first {
            Some((acc, j + 1))
        } else {
            None
        }
    } else if s[j] == '"' {
        match parse_str_acc(s, j + 1, Seq::empty()) {
            None => None,
            Some((key, p)) => if p <= j || p > s.len() {
                None
            } else {
                let q = skip_ws(s, p);
                if q < p || q >= s.len() {
                    None
                } else if s[q] == ':' {
                    match spec_parse_value(s, q + 1) {
                        None => None,
                        Some((v, p2)) => if p2 <= q || p2 > s.len() {
                            None
                        } else {
                            let q2 = skip_ws(s, p2);
                            if q2 < p2 || q2 >= s.len() {
                                None
                            } else if s[q2] == ',' {
                                spec_parse_members(s, q2 + 1, assoc_set(acc, key, v), false)
                            } else if s[q2] == '}' {
                                Some((assoc_set(acc, key, v), q2 + 1))
                            } else {
                                None
                            }
                        },
                    }
                } else {
                    None
                }
            },
        }
    } else {
        None
    }
}

/// The JSON document denoted by `s`: one value with nothing but whitespace
/// around it.
pub open spec fn spec_parse_json(s: Seq<char>) -> Option<JVal> {
    match spec_parse_value(s, 0) {
        None => None,
        Some((v, p)) => if skip_ws(s, p) == s.len() {
            Some(v)
        } else {
            None
        },
    }
}

/// Relies on `char::from_u32`: returns `Some` exactly for Unicode scalar
/// values (not a surrogate, not above the maximum code point), and the
/// returned character has the requested code point.
#[verifier::external_body]
fn char_from_u32(code: u32) -> (r: Option<char>)
    ensures
        r matches Some(c) ==> c as u32 == code,
        r is None <==> (0xD800 <= code < 0xE000 || code > 0x10FFFF),
{
    char::from_u32(code)
}

#[verifier::loop_isolation(false)]
fn skip_ws_exec(s: &[char], i: usize) -> (j: usize)
    requires
        i <= s.len(),
    ensures
        j as int == skip_ws(s@, i as int),
        i <= j <= s.len(),
{
    let mut j = i;
    while j < s.len() && is_space_exec(s[j])
        invariant
            i <= j <= s.len(),
            skip_ws(s@, i as int) == skip_ws(s@, j as int),
        decreases s.len() - j,
    {
        j = j + 1;
    }
    j
}

#[verifier::loop_isolation(false)]
fn lit_at_exec(s: &[char], i: usize, lit: &[char]) -> (b: bool)
    requires
        i <= s.len(),
    ensures
        b == lit_at(s@, i as int, lit@),
{
    if lit.len() > s.len() - i {
        return false;
    }
    let mut k: usize = 0;
    while k < lit.len()
        invariant
            k <= lit.len(),
            i + lit.len() <= s.len(),
            forall|m: int| 0 <= m < k ==> s@[i + m] == lit@[m],
        decreases lit.len() - k,
    {
        if s[i + k] != lit[k] {
            return false;
        }
        k = k + 1;
    }
    true
}

fn is_digit_exec(c: char) -> (b: bool)
    ensures
        b == is_digit(c),
{
    let u = c as u32;
    48 <= u && u <= 57
}

fn hex_val_exec(c: char) -> (r: Option<u32>)
    ensures
        match r {
            Some(v) => is_hex_digit(c) && v as int == hex_val(c) && v < 16,
            None => !is_hex_digit(c),
        },
{
    let u = c as u32;
    if 48 <= u && u <= 57 {
        Some(u - 48)
    } else if 97 <= u && u <= 102 {
        Some(u - 97 + 10)
    } else if 65 <= u && u <= 70 {
        Some(u - 65 + 10)
    } else {
        None
    }
}

fn esc_char_exec(c: char) -> (r: Option<char>)
    ensures
        r == esc_char(c),
{
    if c == '"' {
        Some('"')
    } else if c == '\\' {
        Some('\\')
    } else if c == '/' {
        Some('/')
    } else if c == 'b' {
        Some('\u{8}')
    } else if c == 'f' {
        Some('\u{c}')
    } else if c == 'n' {
        Some('\n')
    } else if c == 'r' {
        Some('\r')
    } else if c == 't' {
        Some('\t')
    } else {
        None
    }
}

#[verifier::loop_isolation(false)]
fn parse_string_body(s: &[char], i: usize) -> (r: Option<(Vec<char>, usize)>)
    requires
        i <= s.len(),
    ensures
        match r {
            Some(pair) => parse_str_acc(s@, i as int, Seq::empty()) == Some(
                (pair.0@, pair.1 as int),
            ) && i < pair.1 <= s.len(),
            None => parse_str_acc(s@, i as int, Seq::empty()) is None,
        },
{
    let mut out: Vec<char> = Vec::new();
    let mut k = i;
    loop
        invariant
            i <= k <= s.len(),
            parse_str_acc(s@, i as int, Seq::empty()) == parse_str_acc(s@, k as int, out@),
        decreases s.len() - k,
    {
        if k >= s.len() {
            return None;
        }
        let c = s[k];
        if c == '"' {
            return Some((out, k + 1));
        } else if c == '\\' {
            if k + 1 >= s.len() {
                return None;
            }
            let e = s[k + 1];
            if e == 'u' {
                if s.len() - k >= 6 {
                    let h1 = hex_val_exec(s[k + 2]);
                    let h2 = hex_val_exec(s[k + 3]);
                    let h3 = hex_val_exec(s[k + 4]);
                    let h4 = hex_val_exec(s[k + 5]);
                    match (h1, h2, h3, h4) {
                        (Some(a), Some(b), Some(cc), Some(d)) => {
                            let u: u32 = ((a * 16 + b) * 16 + cc) * 16 + d;
                            match char_from_u32(u) {
                                Some(ch) => {
                                    proof {
                                        vstd::utf8::char_u32_cast(ch, u);
                                    }
                                    out.push(ch);
                                    k = k + 6;
                                },
                                None => {
                                    return None;
                                },
                            }
                        },
                        _ => {
                            return None;
                        },
                    }
                } else {
                    return None;
                }
            } else {
                match esc_char_exec(e) {
                    Some(c2) => {
                        out.push(c2);
                        k = k + 2;
                    },
                    None => {
                        return None;
                    },
                }
            }
        } else if (c as u32) < 32 {
            return None;
        } else {
            out.push(c);
            k = k + 1;
        }
    }
}

#[verifier::loop_isolation(false)]
fn scan_digits_exec(s: &[char], i: usize) -> (j: usize)
    requires
        i <= s.len(),
    ensures
        j as int == scan_digits(s@, i as int),
        i <= j <= s.len(),
        forall|k: int| i <= k < j ==> is_digit(s@[k]),
{
    let mut j = i;
    while j < s.len() && is_digit_exec(s[j])
        invariant
            i <= j <= s.len(),
            scan_digits(s@, i as int) == scan_digits(s@, j as int),
            forall|k: int| i <= k < j ==> is_digit(s@[k]),
        decreases s.len() - j,
    {
        j = j + 1;
    }
    j
}

proof fn lemma_digits_val_snoc(s: Seq<char>, a: int, b: int, acc: int)
    requires
        0 <= a <= b,
    ensures
        digits_val(s, a, b + 1, acc) == digits_val(s, a, b, acc) * 10 + digit_val(s[b]),
    decreases b - a,
{
    if a == b {
        assert(digits_val(s, a + 1, b + 1, acc * 10 + digit_val(s[a])) == acc * 10 + digit_val(
            s[a],
        ));
    } else {
        lemma_digits_val_snoc(s, a + 1, b, acc * 10 + digit_val(s[a]));
    }
}

#[verifier::loop_isolation(false)]
fn parse_number_at(s: &[char], i: usize) -> (r: Option<(JsonValue, usize)>)
    requires
        i < s.len(),
    ensures
        match r {
            Some(pair) => spec_parse_number(s@, i as int) == Some((pair.0@, pair.1 as int))
                && i < pair.1 <= s.len(),
            None => spec_parse_number(s@, i as int) is None,
        },
{
    let neg = s[i] == '-';
    let d0 = if neg {
        i + 1
    } else {
        i
    };
    let dend = scan_digits_exec(s, d0);
    if dend == d0 {
        return None;
    }
    // magnitude of the digit run, saturating once it can no longer fit
    let bound: u64 = 0x8000000000000000;
    let mut acc: u64 = 0;
    let mut over = false;
    let mut t = d0;
    while t < dend
        invariant
            d0 <= t <= dend,
            !over ==> acc as int == digits_val(s@, d0 as int, t as int, 0) && acc <= bound,
            over ==> digits_val(s@, d0 as int, t as int, 0) > bound,
            digits_val(s@, d0 as int, t as int, 0) >= 0,
        decreases dend - t,
    {
        let d: u64 = (s[t] as u32 - 48) as u64;
        proof {
            lemma_digits_val_snoc(s@, d0 as int, t as int, 0);
        }
        if !over {
            if acc <= (bound - d) / 10 {
                acc = acc * 10 + d;
            } else {
                over = true;
            }
        }
        t = t + 1;
    }
    // optional fraction
    let mut isint = true;
    let mut p1 = dend;
    if p1 < s.len() && s[p1] == '.' {
        let f = scan_digits_exec(s, p1 + 1);
        if f == p1 + 1 {
            return None;
        }
        p1 = f;
        isint = false;
    }
    // optional exponent
    let mut p2 = p1;
    if p2 < s.len() && (s[p2] == 'e' || s[p2] == 'E') {
        let q = if p2 + 1 < s.len() && (s[p2 + 1] == '+' || s[p2 + 1] == '-') {
            p2 + 2
        } else {
            p2 + 1
        };
        let f = scan_digits_exec(s, q);
        if f == q {
            return None;
        }
        p2 = f;
        isint = false;
    }
    let v = if !isint || over {
        JsonValue::Null
    } else if neg {
        if acc == bound {
            JsonValue::Int(i64::MIN)
        } else {
            JsonValue::Int(-(acc as i64))
        }
    } else {
        if acc < bound {
            JsonValue::Int(acc as i64)
        } else {
            JsonValue::Null
        }
    };
    Some((v, p2))
}

#[verifier::loop_isolation(false)]
fn parse_value_at(s: &[char], i: usize) -> (r: Option<(JsonValue, usize)>)
    requires
        i <= s.len(),
    ensures
        match r {
            Some(pair) => spec_parse_value(s@, i as int) == Some((pair.0@, pair.1 as int))
                && i < pair.1 <= s.len(),
            None => spec_parse_value(s@, i as int) is None,
        },
    decreases s.len() - i, 1int,
{
    proof {
        reveal_strlit("null");
        reveal_strlit("true");
        reveal_strlit("false");
    }
    let j = skip_ws_exec(s, i);
    if j >= s.len() {
        return None;
    }
    let lit_null = chars_of("null");
    if lit_at_exec(s, j, lit_null.as_slice()) {
        return Some((JsonValue::Null, j + 4));
    }
    let lit_true = chars_of("true");
    if lit_at_exec(s, j, lit_true.as_slice()) {
        return Some((JsonValue::Bool(true), j + 4));
    }
    let lit_false = chars_of("false");
    if lit_at_exec(s, j, lit_false.as_slice()) {
        return Some((JsonValue::Bool(false), j + 5));
    }
    let c = s[j];
    if c == '"' {
        match parse_string_body(s, j + 1) {
            Some((cs, p)) => {
                let content = string_of(cs.as_slice());
                Some((JsonValue::Str(content), p))
            },
            None => None,
        }
    } else if c == '[' {
        let acc: Vec<JsonValue> = Vec::new();
        match parse_elems_at(s, j + 1, acc, true) {
            Some((items, p)) => Some((JsonValue::Arr(items), p)),
            None => None,
        }
    } else if c == '{' {
        let acc: Vec<(String, JsonValue)> = Vec::new();
        match parse_members_at(s, j + 1, acc, true) {
            Some((fs, p)) => Some((JsonValue::Obj(fs), p)),
            None => None,
        }
    } else if c == '-' || is_digit_exec(c) {
        parse_number_at(s, j)
    } else {
        None
    }
}

#[verifier::loop_isolation(false)]
fn parse_elems_at(s: &[char], i: usize, acc: Vec<JsonValue>, first: bool) -> (r: Option<
    (Vec<JsonValue>, usize),
>)
    requires
        i <= s.len(),
    ensures
        match r {
            Some(pair) => spec_parse_elems(s@, i as int, aview(acc@), first) == Some(
                (aview(pair.0@), pair.1 as int),
            ) && i < pair.1 <= s.len(),
            None => spec_parse_elems(s@, i as int, aview(acc@), first) is None,
        },
    decreases s.len() - i, 2int,
{
    let ghost acc_seq = acc@;
    let j = skip_ws_exec(s, i);
    if j >= s.len() {
        return None;
    }
    if s[j] == ']' {
        if first {
            return Some((acc, j + 1));
        } else {
            return None;
        }
    }
    match parse_value_at(s, j) {
        None => None,
        Some((v, p)) => {
            let ghost vv = jview(v);
            let q = skip_ws_exec(s, p);
            if q >= s.len() {
                return None;
            }
            if s[q] == ',' {
                let mut acc2 = acc;
                acc2.push(v);
                assert(acc2@.drop_last() =~= acc_seq);
                assert(aview(acc2@) == aview(acc_seq).push(vv));
                parse_elems_at(s, q + 1, acc2, false)
            } else if s[q] == ']' {
                let mut acc2 = acc;
                acc2.push(v);
                assert(acc2@.drop_last() =~= acc_seq);
                assert(aview(acc2@) == aview(acc_seq).push(vv));
                Some((acc2, q + 1))
            } else {
                None
            }
        },
    }
}

#[verifier::loop_isolation(false)]
fn parse_members_at(s: &[char], i: usize, acc: Vec<(String, JsonValue)>, first: bool) -> (r:
    Option<(Vec<(String, JsonValue)>, usize)>)
    requires
        i <= s.len(),
    ensures
        match r {
            Some(pair) => spec_parse_members(s@, i as int, fview(acc@), first) == Some(
                (fview(pair.0@), pair.1 as int),
            ) && i < pair.1 <= s.len(),
            None => spec_parse_members(s@, i as int, fview(acc@), first) is None,
        },
    decreases s.len() - i, 2int,
{
    let ghost acc_seq = acc@;
    let j = skip_ws_exec(s, i);
    if j >= s.len() {
        return None;
    }
    if s[j] == '}' {
        if first {
            return Some((acc, j + 1));
        } else {
            return None;
        }
    }
    if s[j] != '"' {
        return None;
    }
    match parse_string_body(s, j + 1) {
        None => None,
        Some((key_cs, p)) => {
            let q = skip_ws_exec(s, p);
            if q >= s.len() {
                return None;
            }
            if s[q] != ':' {
                return None;
            }
            match parse_value_at(s, q + 1) {
                None => None,
                Some((v, p2)) => {
                    let ghost vv = jview(v);
                    let q2 = skip_ws_exec(s, p2);
                    if q2 >= s.len() {
                        return None;
                    }
                    if s[q2] == ',' {
                        let key = string_of(key_cs.as_slice());
                        let mut acc2 = acc;
                        set_field(&mut acc2, key, v);
                        parse_members_at(s, q2 + 1, acc2, false)
                    } else if s[q2] == '}' {
                        let key = string_of(key_cs.as_slice());
                        let mut acc2 = acc;
                        set_field(&mut acc2, key, v);
                        Some((acc2, q2 + 1))
                    } else {
                        None
                    }
                },
            }
        },
    }
}

/// Parses a complete JSON document.
pub fn parse_json(s: &[char]) -> (r: Option<JsonValue>)
    ensures
        match r {
            Some(v) => spec_parse_json(s@) == Some(v@),
            None => spec_parse_json(s@) is None,
        },
{
    match parse_value_at(s, 0) {
        None => None,
        Some((v, p)) => {
            let q = skip_ws_exec(s, p);
            if q == s.len() {
                Some(v)
            } else {
                None
            }
        },
    }
}

} // verus!
