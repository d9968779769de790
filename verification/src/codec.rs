//! The wire codec: decodes inbound client payloads (a join request, a chat
//! message, a typing indicator) and renders the frames broadcast to room
//! members. Payloads are flat JSON objects of scalar fields — a string, a
//! number, `true`, `false` or `null` under each key; nested containers and
//! `\u` escapes are refused as malformed. Decoding never panics: a payload
//! outside the grammar is a decode error surfaced to the caller.

use vstd::prelude::*;

verus! {

/// One scalar field value of a payload. A number is kept as its lexeme, so
/// it is carried over verbatim.
pub enum JsonScalar {
    Null,
    Bool(bool),
    Number(String),
    Text(String),
}

/// The mathematical content of a scalar.
pub ghost enum ScalarModel {
    Null,
    Bool(bool),
    Number(Seq<char>),
    Text(Seq<char>),
}

impl JsonScalar {
    /// The scalar as a model value.
    pub open spec fn model(self) -> ScalarModel {
        match self {
            JsonScalar::Null => ScalarModel::Null,
            JsonScalar::Bool(b) => ScalarModel::Bool(b),
            JsonScalar::Number(s) => ScalarModel::Number(s@),
            JsonScalar::Text(s) => ScalarModel::Text(s@),
        }
    }
}

/// JSON whitespace.
pub open spec fn is_ws(c: char) -> bool {
    c == ' ' || c == '\t' || c == '\n' || c == '\r'
}

/// A decimal digit.
pub open spec fn is_digit(c: char) -> bool {
    (c as u32) >= 48 && (c as u32) <= 57
}

/// The first position at or after `i` holding no whitespace.
pub open spec fn skip_ws(s: Seq<char>, i: int) -> int
    decreases s.len() - i,
    when 0 <= i <= s.len()
{
    if i < s.len() && is_ws(s[i]) {
        skip_ws(s, i + 1)
    } else {
        i
    }
}

/// `skip_ws` never moves backwards nor past the end.
pub proof fn lemma_skip_ws(s: Seq<char>, i: int)
    requires
        0 <= i <= s.len(),
    ensures
        i <= skip_ws(s, i) <= s.len(),
    decreases s.len() - i,
{
    if i < s.len() && is_ws(s[i]) {
        lemma_skip_ws(s, i + 1);
    }
}

/// The character written by a single-character escape, if `c` is one.
pub open spec fn esc_code(c: char) -> Option<char> {
    if c == '"' {
        Some('"')
    } else if c == '\\' {
        Some('\\')
    } else if c == '/' {
        Some('/')
    } else if c == 'b' {
        Some('\u{8}')
    } else if c == 'f' {
        Some('\u{c}')
    } else if c == 'n' {
        Some('\n')
    } else if c == 'r' {
        Some('\r')
    } else if c == 't' {
        Some('\t')
    } else {
        None
    }
}

/// Parses the body of a string literal from `i` (just inside the opening
/// quote): the decoded characters and the position after the closing quote.
/// Unterminated strings, unknown escapes and raw control characters are
/// malformed.
pub open spec fn parse_str_body(s: Seq<char>, i: int) -> Option<(Seq<char>, int)>
    decreases s.len() - i,
    when 0 <= i <= s.len()
{
    if i >= s.len() {
        None
    } else if s[i] == '"' {
        Some((Seq::empty(), i + 1))
    } else if s[i] == '\\' {
        if i + 1 >= s.len() {
            None
        } else {
            match esc_code(s[i + 1]) {
                Some(c) => match parse_str_body(s, i + 2) {
                    Some((rest, j)) => Some((seq![c] + rest, j)),
                    None => None,
                },
                None => None,
            }
        }
    } else if (s[i] as u32) < 32 {
        None
    } else {
        match parse_str_body(s, i + 1) {
            Some((rest, j)) => Some((seq![s[i]] + rest, j)),
            None => None,
        }
    }
}

/// A parsed string body ends strictly after where it began and within the
/// input.
pub proof fn lemma_parse_str_body(s: Seq<char>, i: int)
    requires
        0 <= i <= s.len(),
    ensures
        parse_str_body(s, i) is Some ==> i < (parse_str_body(s, i)->0).1 <= s.len(),
    decreases s.len() - i,
{
    if i >= s.len() {
    } else if s[i] == '"' {
    } else if s[i] == '\\' {
        if i + 1 < s.len() {
            lemma_parse_str_body(s, i + 2);
        }
    } else {
        lemma_parse_str_body(s, i + 1);
    }
}

/// The first position at or after `i` holding no digit.
pub open spec fn digits_end(s: Seq<char>, i: int) -> int
    decreases s.len() - i,
    when 0 <= i <= s.len()
{
    if i < s.len() && is_digit(s[i]) {
        digits_end(s, i + 1)
    } else {
        i
    }
}

/// `digits_end` never moves backwards nor past the end.
pub proof fn lemma_digits_end(s: Seq<char>, i: int)
    requires
        0 <= i <= s.len(),
    ensures
        i <= digits_end(s, i) <= s.len(),
    decreases s.len() - i,
{
    if i < s.len() && is_digit(s[i]) {
        lemma_digits_end(s, i + 1);
    }
}

/// The position after a JSON number starting at `i`, or `None` when none
/// starts there: an optional minus, an integer part without leading zeros,
/// an optional fraction, an optional exponent.
pub open spec fn number_end(s: Seq<char>, i: int) -> Option<int> {
    let p0 = if i < s.len() && s[i] == '-' {
        i + 1
    } else {
        i
    };
    if p0 >= s.len() || !is_digit(s[p0]) {
        None
    } else {
        let p1 = if s[p0] == '0' {
            p0 + 1
        } else {
            digits_end(s, p0)
        };
        let p2 = if p1 < s.len() && s[p1] == '.' {
            digits_end(s, p1 + 1)
        } else {
            p1
        };
        if p1 < s.len() && s[p1] == '.' && p2 == p1 + 1 {
            None
        } else {
            let p3 = if p2 < s.len() && (s[p2] == 'e' || s[p2] == 'E') {
                if p2 + 1 < s.len() && (s[p2 + 1] == '+' || s[p2 + 1] == '-') {
                    digits_end(s, p2 + 2)
                } else {
                    digits_end(s, p2 + 1)
                }
            } else {
                p2
            };
            if p2 < s.len() && (s[p2] == 'e' || s[p2] == 'E') {
                let q = if p2 + 1 < s.len() && (s[p2 + 1] == '+' || s[p2 + 1] == '-') {
                    p2 + 2
                } else {
                    p2 + 1
                };
                if p3 == q {
                    None
                } else {
                    Some(p3)
                }
            } else {
                Some(p2)
            }
        }
    }
}

/// A parsed number ends strictly after where it began and within the input.
pub proof fn lemma_number_end(s: Seq<char>, i: int)
    requires
        0 <= i <= s.len(),
    ensures
        number_end(s, i) is Some ==> i < number_end(s, i)->0 <= s.len(),
{
    let p0 = if i < s.len() && s[i] == '-' {
        i + 1
    } else {
        i
    };
    if p0 < s.len() && is_digit(s[p0]) {
        let p1 = if s[p0] == '0' {
            p0 + 1
        } else {
            digits_end(s, p0)
        };
        lemma_digits_end(s, p0);
        assert(p0 < p1 <= s.len()) by {
            if s[p0] != '0' {
                assert(digits_end(s, p0) == digits_end(s, p0 + 1));
                lemma_digits_end(s, p0 + 1);
            }
        }
        if p1 < s.len() && s[p1] == '.' {
            lemma_digits_end(s, p1 + 1);
        }
        let p2 = if p1 < s.len() && s[p1] == '.' {
            digits_end(s, p1 + 1)
        } else {
            p1
        };
        if p2 < s.len() && (s[p2] == 'e' || s[p2] == 'E') {
            if p2 + 1 < s.len() && (s[p2 + 1] == '+' || s[p2 + 1] == '-') {
                lemma_digits_end(s, p2 + 2);
            } else {
                lemma_digits_end(s, p2 + 1);
            }
        }
    }
}

/// Parses one scalar value at `i`: a string, `true`, `false`, `null` or a
/// number. Anything else — in particular a nested object or array — is
/// malformed.
pub open spec fn parse_scalar(s: Seq<char>, i: int) -> Option<(ScalarModel, int)> {
    if i >= s.len() {
        None
    } else if s[i] == '"' {
        match parse_str_body(s, i + 1) {
            Some((cs, j)) => Some((ScalarModel::Text(cs), j)),
            None => None,
        }
    } else if s[i] == 't' {
        if i + 4 <= s.len() && s[i + 1] == 'r' && s[i + 2] == 'u' && s[i + 3] == 'e' {
            Some((ScalarModel::Bool(true), i + 4))
        } else {
            None
        }
    } else if s[i] == 'f' {
        if i + 5 <= s.len() && s[i + 1] == 'a' && s[i + 2] == 'l' && s[i + 3] == 's' && s[i + 4]
            == 'e' {
            Some((ScalarModel::Bool(false), i + 5))
        } else {
            None
        }
    } else if s[i] == 'n' {
        if i + 4 <= s.len() && s[i + 1] == 'u' && s[i + 2] == 'l' && s[i + 3] == 'l' {
            Some((ScalarModel::Null, i + 4))
        } else {
            None
        }
    } else {
        match number_end(s, i) {
            Some(j) => Some((ScalarModel::Number(s.subrange(i, j)), j)),
            None => None,
        }
    }
}

/// A parsed scalar ends strictly after where it began and within the input.
pub proof fn lemma_parse_scalar(s: Seq<char>, i: int)
    requires
        0 <= i <= s.len(),
    ensures
        parse_scalar(s, i) is Some ==> i < (parse_scalar(s, i)->0).1 <= s.len(),
{
    if i < s.len() {
        if s[i] == '"' {
            lemma_parse_str_body(s, i + 1);
        } else if s[i] == 't' || s[i] == 'f' || s[i] == 'n' {
        } else {
            lemma_number_end(s, i);
        }
    }
}

/// Parses the field list of an object from `i`, which must stand on the
/// opening quote of a key; ends after the closing `}`.
pub open spec fn parse_pairs(s: Seq<char>, i: int) -> Option<
    (Seq<(Seq<char>, ScalarModel)>, int),
>
    decreases s.len() - i,
    when 0 <= i <= s.len()
    via parse_pairs_decreases
{
    if i >= s.len() || s[i] != '"' {
        None
    } else {
        match parse_str_body(s, i + 1) {
            None => None,
            Some((key, j)) => {
                let j1 = skip_ws(s, j);
                if j1 >= s.len() || s[j1] != ':' {
                    None
                } else {
                    let j2 = skip_ws(s, j1 + 1);
                    match parse_scalar(s, j2) {
                        None => None,
                        Some((v, j3)) => {
                            let j4 = skip_ws(s, j3);
                            if j4 >= s.len() {
                                None
                            } else if s[j4] == ',' {
                                let j5 = skip_ws(s, j4 + 1);
                                match parse_pairs(s, j5) {
                                    Some((rest, j6)) => Some((seq![(key, v)] + rest, j6)),
                                    None => None,
                                }
                            } else if s[j4] == '}' {
                                Some((seq![(key, v)], j4 + 1))
                            } else {
                                None
                            }
                        },
                    }
                }
            },
        }
    }
}

#[via_fn]
proof fn parse_pairs_decreases(s: Seq<char>, i: int) {
    if 0 <= i <= s.len() && i < s.len() && s[i] == '"' {
        lemma_parse_str_body(s, i + 1);
        if parse_str_body(s, i + 1) is Some {
            let j = (parse_str_body(s, i + 1)->0).1;
            lemma_skip_ws(s, j);
            let j1 = skip_ws(s, j);
            if j1 < s.len() && s[j1] == ':' {
                lemma_skip_ws(s, j1 + 1);
                let j2 = skip_ws(s, j1 + 1);
                lemma_parse_scalar(s, j2);
                if parse_scalar(s, j2) is Some {
                    let j3 = (parse_scalar(s, j2)->0).1;
                    lemma_skip_ws(s, j3);
                    let j4 = skip_ws(s, j3);
                    if j4 < s.len() && s[j4] == ',' {
                        lemma_skip_ws(s, j4 + 1);
                    }
                }
            }
        }
    }
}

/// Parses a whole payload: one flat object, with nothing but whitespace
/// around it.
pub open spec fn parse_object(s: Seq<char>) -> Option<Seq<(Seq<char>, ScalarModel)>> {
    let i = skip_ws(s, 0);
    if i >= s.len() || s[i] != '{' {
        None
    } else {
        let j = skip_ws(s, i + 1);
        if j < s.len() && s[j] == '}' {
            if skip_ws(s, j + 1) == s.len() {
                Some(Seq::empty())
            } else {
                None
            }
        } else {
            match parse_pairs(s, j) {
                Some((fields, j2)) => if skip_ws(s, j2) == s.len() {
                    Some(fields)
                } else {
                    None
                },
                None => None,
            }
        }
    }
}

/// The value under `name`, taking the last occurrence when a key repeats.
pub open spec fn field_lookup(fs: Seq<(Seq<char>, ScalarModel)>, name: Seq<char>) -> Option<
    ScalarModel,
>
    decreases fs.len(),
{
    if fs.len() == 0 {
        None
    } else if fs.last().0 == name {
        Some(fs.last().1)
    } else {
        field_lookup(fs.drop_last(), name)
    }
}

/// How one character is written inside a JSON string: quote and backslash
/// escaped, the named control characters by their short escapes; every
/// other character stands as itself.
pub open spec fn esc_char(c: char) -> Seq<char> {
    if c == '"' {
        "\\\""@
    } else if c == '\\' {
        "\\\\"@
    } else if c == '\u{8}' {
        "\\b"@
    } else if c == '\u{c}' {
        "\\f"@
    } else if c == '\n' {
        "\\n"@
    } else if c == '\r' {
        "\\r"@
    } else if c == '\t' {
        "\\t"@
    } else {
        seq![c]
    }
}

/// A whole string written inside JSON quotes.
pub open spec fn esc_string(s: Seq<char>) -> Seq<char>
    decreases s.len(),
{
    if s.len() == 0 {
        Seq::empty()
    } else {
        esc_string(s.drop_last()) + esc_char(s.last())
    }
}

/// Appending one character appends its escape.
pub proof fn lemma_esc_string_step(s: Seq<char>, i: int)
    requires
        0 <= i < s.len(),
    ensures
        esc_string(s.take(i + 1)) == esc_string(s.take(i)) + esc_char(s[i]),
{
    assert(s.take(i + 1).drop_last() =~= s.take(i));
    assert(s.take(i + 1).last() == s[i]);
}

/// How a scalar is written on the wire.
pub open spec fn render_scalar(v: ScalarModel) -> Seq<char> {
    match v {
        ScalarModel::Null => "null"@,
        ScalarModel::Bool(b) => if b {
            "true"@
        } else {
            "false"@
        },
        ScalarModel::Number(lex) => lex,
        ScalarModel::Text(t) => "\""@ + esc_string(t) + "\""@,
    }
}

/// An optional field: `null` when absent.
pub open spec fn render_opt(v: Option<ScalarModel>) -> Seq<char> {
    match v {
        None => "null"@,
        Some(s) => render_scalar(s),
    }
}

/// The chat-message frame broadcast to a room.
pub open spec fn chat_wire(
    user: Seq<char>,
    datetime: Seq<char>,
    message: Option<ScalarModel>,
    image: Option<ScalarModel>,
    reply: Option<ScalarModel>,
) -> Seq<char> {
    "{\"userid\":\""@ + esc_string(user) + "\",\"datetime\":\""@ + esc_string(datetime)
        + "\",\"text\":"@ + render_opt(message) + ",\"image\":"@ + render_opt(image)
        + ",\"reply\":"@ + render_opt(reply) + "}"@
}

/// The typing-indicator frame broadcast to a room.
pub open spec fn typing_wire(user: Seq<char>) -> Seq<char> {
    "{\"userid\":\""@ + esc_string(user) + "\",\"istyping\":true}"@
}

/// The presence frame announcing a join.
pub open spec fn presence_joined_wire(user: Seq<char>) -> Seq<char> {
    user + " joined."@
}

/// The presence frame announcing a leave.
pub open spec fn presence_left_wire(user: Seq<char>) -> Seq<char> {
    user + " left."@
}


/// The field list as a model value.
pub open spec fn fields_model(v: Seq<(String, JsonScalar)>) -> Seq<(Seq<char>, ScalarModel)> {
    v.map_values(|p: (String, JsonScalar)| (p.0@, p.1.model()))
}

/// An optional scalar as a model value.
pub open spec fn opt_model(o: Option<JsonScalar>) -> Option<ScalarModel> {
    match o {
        None => None,
        Some(s) => Some(s.model()),
    }
}

impl JsonScalar {
    /// A value equal to this one, field for field.
    pub fn duplicate(&self) -> (r: JsonScalar)
        ensures
            r.model() == self.model(),
    {
        match self {
            JsonScalar::Null => JsonScalar::Null,
            JsonScalar::Bool(b) => JsonScalar::Bool(*b),
            JsonScalar::Number(s) => JsonScalar::Number(s.clone()),
            JsonScalar::Text(s) => JsonScalar::Text(s.clone()),
        }
    }
}

/// The characters of `s`, one slot each.
pub fn str_to_chars(s: &str) -> (v: Vec<char>)
    ensures
        v@ == s@,
{
    let n = s.unicode_len();
    let mut v: Vec<char> = Vec::new();
    let mut i: usize = 0;
    while i < n
        invariant
            i <= n,
            n == s@.len(),
            v@ == s@.take(i as int),
        decreases n - i,
    {
        let c = s.get_char(i);
        v.push(c);
        proof {
            assert(v@ =~= s@.take(i + 1));
        }
        i = i + 1;
    }
    proof {
        assert(s@.take(n as int) =~= s@);
    }
    v
}

/// The characters of `v` between `i` and `j` as a string.
fn chars_substring(v: &Vec<char>, i: usize, j: usize) -> (r: String)
    requires
        i <= j <= v@.len(),
    ensures
        r@ == v@.subrange(i as int, j as int),
{
    let mut r = String::new();
    let mut k = i;
    while k < j
        invariant
            i <= k <= j <= v@.len(),
            r@ == v@.subrange(i as int, k as int),
        decreases j - k,
    {
        crate::text::push_char(&mut r, v[k]);
        proof {
            assert(r@ =~= v@.subrange(i as int, k + 1));
        }
        k = k + 1;
    }
    r
}

/// Whether `c` is JSON whitespace.
fn is_ws_exec(c: char) -> (r: bool)
    ensures
        r == is_ws(c),
{
    c == ' ' || c == '\t' || c == '\n' || c == '\r'
}

/// The first position at or after `i` holding no whitespace.
fn skip_ws_exec(v: &Vec<char>, i: usize) -> (r: usize)
    requires
        i <= v@.len(),
    ensures
        r as int == skip_ws(v@, i as int),
        i <= r <= v@.len(),
{
    let mut j = i;
    while j < v.len() && is_ws_exec(v[j])
        invariant
            i <= j <= v@.len(),
            skip_ws(v@, i as int) == skip_ws(v@, j as int),
        decreases v@.len() - j,
    {
        j = j + 1;
    }
    j
}

/// The character written by a single-character escape, if `c` is one.
fn esc_code_exec(c: char) -> (r: Option<char>)
    ensures
        r == esc_code(c),
{
    if c == '"' {
        Some('"')
    } else if c == '\\' {
        Some('\\')
    } else if c == '/' {
        Some('/')
    } else if c == 'b' {
        Some('\u{8}')
    } else if c == 'f' {
        Some('\u{c}')
    } else if c == 'n' {
        Some('\n')
    } else if c == 'r' {
        Some('\r')
    } else if c == 't' {
        Some('\t')
    } else {
        None
    }
}

/// Parses a string body from `start` (just inside the opening quote).
fn parse_str_body_exec(v: &Vec<char>, start: usize) -> (r: Option<(String, usize)>)
    requires
        start <= v@.len(),
    ensures
        match r {
            Some(p) => {
                &&& parse_str_body(v@, start as int) is Some
                &&& (parse_str_body(v@, start as int)->0).0 == p.0@
                &&& (parse_str_body(v@, start as int)->0).1 == p.1 as int
                &&& start < p.1 <= v@.len()
            },
            None => parse_str_body(v@, start as int) is None,
        },
{
    let mut acc = String::new();
    let mut i = start;
    proof {
        assert(acc@ =~= Seq::<char>::empty());
    }
    loop
        invariant
            start <= i <= v@.len(),
            parse_str_body(v@, start as int) is Some <==> parse_str_body(v@, i as int) is Some,
            parse_str_body(v@, i as int) is Some ==> {
                &&& (parse_str_body(v@, start as int)->0).0 == acc@ + (parse_str_body(
                    v@,
                    i as int,
                )->0).0
                &&& (parse_str_body(v@, start as int)->0).1 == (parse_str_body(v@, i as int)->0).1
            },
        decreases v@.len() - i,
    {
        if i >= v.len() {
            return None;
        }
        let c = v[i];
        if c == '"' {
            proof {
                lemma_parse_str_body(v@, start as int);
                assert((parse_str_body(v@, i as int)->0).0 =~= Seq::<char>::empty());
                assert(acc@ + Seq::<char>::empty() =~= acc@);
            }
            return Some((acc, i + 1));
        }
        if c == '\\' {
            if i + 1 >= v.len() {
                return None;
            }
            let e = esc_code_exec(v[i + 1]);
            match e {
                None => {
                    return None;
                },
                Some(c2) => {
                    let ghost pre = acc@;
                    crate::text::push_char(&mut acc, c2);
                    proof {
                        if parse_str_body(v@, i + 2) is Some {
                            let rest = (parse_str_body(v@, i + 2)->0).0;
                            assert((parse_str_body(v@, i as int)->0).0 == seq![c2] + rest);
                            assert(pre + (seq![c2] + rest) =~= acc@ + rest);
                        }
                    }
                    i = i + 2;
                },
            }
        } else if (c as u32) < 32 {
            return None;
        } else {
            let ghost pre = acc@;
            crate::text::push_char(&mut acc, c);
            proof {
                if parse_str_body(v@, i + 1) is Some {
                    let rest = (parse_str_body(v@, i + 1)->0).0;
                    assert((parse_str_body(v@, i as int)->0).0 == seq![c] + rest);
                    assert(pre + (seq![c] + rest) =~= acc@ + rest);
                }
            }
            i = i + 1;
        }
    }
}

/// The first position at or after `i` holding no digit.
fn digits_end_exec(v: &Vec<char>, i: usize) -> (r: usize)
    requires
        i <= v@.len(),
    ensures
        r as int == digits_end(v@, i as int),
        i <= r <= v@.len(),
{
    let mut j = i;
    while j < v.len() && (v[j] as u32) >= 48 && (v[j] as u32) <= 57
        invariant
            i <= j <= v@.len(),
            digits_end(v@, i as int) == digits_end(v@, j as int),
        decreases v@.len() - j,
    {
        j = j + 1;
    }
    j
}

/// The position after a JSON number starting at `i`, when one does.
fn number_end_exec(v: &Vec<char>, i: usize) -> (r: Option<usize>)
    requires
        i <= v@.len(),
    ensures
        match r {
            Some(j) => number_end(v@, i as int) == Some(j as int) && i < j <= v@.len(),
            None => number_end(v@, i as int) is None,
        },
{
    proof {
        lemma_number_end(v@, i as int);
    }
    let p0 = if i < v.len() && v[i] == '-' {
        i + 1
    } else {
        i
    };
    if p0 >= v.len() || !((v[p0] as u32) >= 48 && (v[p0] as u32) <= 57) {
        return None;
    }
    let p1 = if v[p0] == '0' {
        p0 + 1
    } else {
        digits_end_exec(v, p0)
    };
    let p2 = if p1 < v.len() && v[p1] == '.' {
        digits_end_exec(v, p1 + 1)
    } else {
        p1
    };
    if p1 < v.len() && v[p1] == '.' && p2 == p1 + 1 {
        return None;
    }
    if p2 < v.len() && (v[p2] == 'e' || v[p2] == 'E') {
        let q = if p2 + 1 < v.len() && (v[p2 + 1] == '+' || v[p2 + 1] == '-') {
            p2 + 2
        } else {
            p2 + 1
        };
        let p3 = digits_end_exec(v, q);
        if p3 == q {
            None
        } else {
            Some(p3)
        }
    } else {
        Some(p2)
    }
}

/// Parses one scalar value at `i`.
fn parse_scalar_exec(v: &Vec<char>, i: usize) -> (r: Option<(JsonScalar, usize)>)
    requires
        i <= v@.len(),
    ensures
        match r {
            Some(p) => {
                &&& parse_scalar(v@, i as int) is Some
                &&& (parse_scalar(v@, i as int)->0).0 == p.0.model()
                &&& (parse_scalar(v@, i as int)->0).1 == p.1 as int
                &&& i < p.1 <= v@.len()
            },
            None => parse_scalar(v@, i as int) is None,
        },
{
    if i >= v.len() {
        return None;
    }
    let c = v[i];
    if c == '"' {
        match parse_str_body_exec(v, i + 1) {
            Some((text, j)) => Some((JsonScalar::Text(text), j)),
            None => None,
        }
    } else if c == 't' {
        if v.len() - i >= 4 && v[i + 1] == 'r' && v[i + 2] == 'u' && v[i + 3] == 'e' {
            Some((JsonScalar::Bool(true), i + 4))
        } else {
            None
        }
    } else if c == 'f' {
        if v.len() - i >= 5 && v[i + 1] == 'a' && v[i + 2] == 'l' && v[i + 3] == 's' && v[i + 4]
            == 'e' {
            Some((JsonScalar::Bool(false), i + 5))
        } else {
            None
        }
    } else if c == 'n' {
        if v.len() - i >= 4 && v[i + 1] == 'u' && v[i + 2] == 'l' && v[i + 3] == 'l' {
            Some((JsonScalar::Null, i + 4))
        } else {
            None
        }
    } else {
        match number_end_exec(v, i) {
            Some(j) => {
                let lex = chars_substring(v, i, j);
                Some((JsonScalar::Number(lex), j))
            },
            None => None,
        }
    }
}

/// Parses the field list of an object from `start`, which must stand on the
/// opening quote of the first key.
fn parse_pairs_exec(v: &Vec<char>, start: usize) -> (r: Option<(Vec<(String, JsonScalar)>, usize)>)
    requires
        start <= v@.len(),
    ensures
        match r {
            Some(p) => {
                &&& parse_pairs(v@, start as int) is Some
                &&& (parse_pairs(v@, start as int)->0).0 == fields_model(p.0@)
                &&& (parse_pairs(v@, start as int)->0).1 == p.1 as int
                &&& p.1 <= v@.len()
            },
            None => parse_pairs(v@, start as int) is None,
        },
{
    let mut acc: Vec<(String, JsonScalar)> = Vec::new();
    let mut i = start;
    proof {
        assert(fields_model(acc@) =~= Seq::<(Seq<char>, ScalarModel)>::empty());
    }
    loop
        invariant
            start <= i <= v@.len(),
            parse_pairs(v@, start as int) is Some <==> parse_pairs(v@, i as int) is Some,
            parse_pairs(v@, i as int) is Some ==> {
                &&& (parse_pairs(v@, start as int)->0).0 == fields_model(acc@) + (parse_pairs(
                    v@,
                    i as int,
                )->0).0
                &&& (parse_pairs(v@, start as int)->0).1 == (parse_pairs(v@, i as int)->0).1
            },
        decreases v@.len() - i,
    {
        if i >= v.len() {
            return None;
        }
        if v[i] != '"' {
            return None;
        }
        let (key, j) = match parse_str_body_exec(v, i + 1) {
            None => {
                return None;
            },
            Some(p) => p,
        };
        let j1 = skip_ws_exec(v, j);
        if j1 >= v.len() {
            return None;
        }
        if v[j1] != ':' {
            return None;
        }
        let j2 = skip_ws_exec(v, j1 + 1);
        let (val, j3) = match parse_scalar_exec(v, j2) {
            None => {
                return None;
            },
            Some(p) => p,
        };
        let j4 = skip_ws_exec(v, j3);
        if j4 >= v.len() {
            return None;
        }
        let ghost prefields = fields_model(acc@);
        let ghost kv = (key@, val.model());
        if v[j4] == ',' {
            acc.push((key, val));
            proof {
                assert(fields_model(acc@) =~= prefields.push(kv));
                lemma_skip_ws(v@, j4 + 1);
                let j5 = skip_ws(v@, j4 + 1);
                if parse_pairs(v@, j5) is Some {
                    let rest = (parse_pairs(v@, j5)->0).0;
                    assert((parse_pairs(v@, i as int)->0).0 == seq![kv] + rest);
                    assert(prefields + (seq![kv] + rest) =~= prefields.push(kv) + rest);
                }
            }
            i = skip_ws_exec(v, j4 + 1);
        } else if v[j4] == '}' {
            acc.push((key, val));
            proof {
                assert(fields_model(acc@) =~= prefields.push(kv));
                assert((parse_pairs(v@, i as int)->0).0 =~= seq![kv]);
                assert(prefields + seq![kv] =~= prefields.push(kv));
            }
            return Some((acc, j4 + 1));
        } else {
            return None;
        }
    }
}

/// Parses a whole payload: one flat object with nothing but whitespace
/// around it, or `None` when the payload is malformed.
pub fn parse_object_exec(text: &str) -> (r: Option<Vec<(String, JsonScalar)>>)
    ensures
        match r {
            Some(fields) => parse_object(text@) == Some(fields_model(fields@)),
            None => parse_object(text@) is None,
        },
{
    let v = str_to_chars(text);
    let i = skip_ws_exec(&v, 0);
    if i >= v.len() {
        return None;
    }
    if v[i] != '{' {
        return None;
    }
    let j = skip_ws_exec(&v, i + 1);
    if j < v.len() && v[j] == '}' {
        if skip_ws_exec(&v, j + 1) == v.len() {
            let fields: Vec<(String, JsonScalar)> = Vec::new();
            proof {
                assert(fields_model(fields@) =~= Seq::<(Seq<char>, ScalarModel)>::empty());
            }
            return Some(fields);
        } else {
            return None;
        }
    }
    match parse_pairs_exec(&v, j) {
        None => None,
        Some((fields, j2)) => {
            if skip_ws_exec(&v, j2) == v.len() {
                Some(fields)
            } else {
                None
            }
        },
    }
}

/// The value under `name`, taking the last occurrence when a key repeats.
pub fn get_field<'a>(fields: &'a Vec<(String, JsonScalar)>, name: &String) -> (r: Option<
    &'a JsonScalar,
>)
    ensures
        match r {
            Some(sc) => field_lookup(fields_model(fields@), name@) == Some(sc.model()),
            None => field_lookup(fields_model(fields@), name@) is None,
        },
{
    let ghost fm = fields_model(fields@);
    let mut k = fields.len();
    proof {
        assert(fm.take(fields@.len() as int) =~= fm);
    }
    while k > 0
        invariant
            k <= fields@.len(),
            fm == fields_model(fields@),
            field_lookup(fm, name@) == field_lookup(fm.take(k as int), name@),
        decreases k,
    {
        k = k - 1;
        if fields[k].0 == *name {
            proof {
                assert(fm.take(k + 1).last() == fm[k as int]);
                assert(fm[k as int].0 == name@);
            }
            return Some(&fields[k].1);
        }
        proof {
            assert(fm.take(k + 1).last() == fm[k as int]);
            assert(fm.take(k + 1).drop_last() =~= fm.take(k as int));
        }
    }
    proof {
        assert(fm.take(0) =~= Seq::<(Seq<char>, ScalarModel)>::empty());
    }
    None
}

/// What a join request asks for: the value of its `channel` field, which
/// must be a string.
pub open spec fn join_request_of(s: Seq<char>) -> Option<Seq<char>> {
    match parse_object(s) {
        None => None,
        Some(fs) => match field_lookup(fs, "channel"@) {
            Some(ScalarModel::Text(t)) => Some(t),
            _ => None,
        },
    }
}

/// Decodes a join request: the room key named by its `channel` field, or
/// `None` when the payload is malformed or names no channel string.
pub fn decode_join(text: &str) -> (r: Option<String>)
    ensures
        match r {
            Some(ch) => join_request_of(text@) == Some(ch@),
            None => join_request_of(text@) is None,
        },
{
    let fields = match parse_object_exec(text) {
        None => {
            return None;
        },
        Some(f) => f,
    };
    let name = String::from_str("channel");
    match get_field(&fields, &name) {
        Some(sc) => match sc {
            JsonScalar::Text(t) => Some(t.clone()),
            _ => None,
        },
        None => None,
    }
}

/// One decoded inbound chat payload.
pub enum InboundMessage {
    Typing,
    Chat { message: Option<JsonScalar>, image: Option<JsonScalar>, reply: Option<JsonScalar> },
}

/// The mathematical content of an inbound payload.
pub ghost enum InboundModel {
    Typing,
    Chat { message: Option<ScalarModel>, image: Option<ScalarModel>, reply: Option<ScalarModel> },
}

impl InboundMessage {
    /// The payload as a model value.
    pub open spec fn model(self) -> InboundModel {
        match self {
            InboundMessage::Typing => InboundModel::Typing,
            InboundMessage::Chat { message, image, reply } => InboundModel::Chat {
                message: opt_model(message),
                image: opt_model(image),
                reply: opt_model(reply),
            },
        }
    }
}

/// How an inbound payload is read: a payload with an `istyping` field, of
/// whatever value, is a typing indicator; any other payload is a chat
/// message carrying its optional `message`, `image` and `reply` fields
/// verbatim.
pub open spec fn inbound_of(s: Seq<char>) -> Option<InboundModel> {
    match parse_object(s) {
        None => None,
        Some(fs) => if field_lookup(fs, "istyping"@) is Some {
            Some(InboundModel::Typing)
        } else {
            Some(
                InboundModel::Chat {
                    message: field_lookup(fs, "message"@),
                    image: field_lookup(fs, "image"@),
                    reply: field_lookup(fs, "reply"@),
                },
            )
        },
    }
}

/// Decodes an inbound chat payload, or `None` when it is malformed.
pub fn decode_inbound(text: &str) -> (r: Option<InboundMessage>)
    ensures
        match r {
            Some(im) => inbound_of(text@) == Some(im.model()),
            None => inbound_of(text@) is None,
        },
{
    let fields = match parse_object_exec(text) {
        None => {
            return None;
        },
        Some(f) => f,
    };
    let typing_name = String::from_str("istyping");
    match get_field(&fields, &typing_name) {
        Some(_) => Some(InboundMessage::Typing),
        None => {
            let message_name = String::from_str("message");
            let message = match get_field(&fields, &message_name) {
                Some(sc) => Some(sc.duplicate()),
                None => None,
            };
            let image_name = String::from_str("image");
            let image = match get_field(&fields, &image_name) {
                Some(sc) => Some(sc.duplicate()),
                None => None,
            };
            let reply_name = String::from_str("reply");
            let reply = match get_field(&fields, &reply_name) {
                Some(sc) => Some(sc.duplicate()),
                None => None,
            };
            Some(InboundMessage::Chat { message, image, reply })
        },
    }
}

/// Appends `s` written as the body of a JSON string.
fn append_escaped(out: &mut String, s: &str)
    ensures
        final(out)@ == old(out)@ + esc_string(s@),
{
    let ghost base = old(out)@;
    let n = s.unicode_len();
    proof {
        assert(s@.take(0) =~= Seq::<char>::empty());
        assert(base + esc_string(s@.take(0)) =~= base);
    }
    let mut i: usize = 0;
    while i < n
        invariant
            i <= n,
            n == s@.len(),
            out@ == base + esc_string(s@.take(i as int)),
        decreases n - i,
    {
        let c = s.get_char(i);
        if c == '"' {
            out.append("\\\"");
        } else if c == '\\' {
            out.append("\\\\");
        } else if c == '\u{8}' {
            out.append("\\b");
        } else if c == '\u{c}' {
            out.append("\\f");
        } else if c == '\n' {
            out.append("\\n");
        } else if c == '\r' {
            out.append("\\r");
        } else if c == '\t' {
            out.append("\\t");
        } else {
            crate::text::push_char(out, c);
        }
        proof {
            lemma_esc_string_step(s@, i as int);
            assert(out@ =~= base + esc_string(s@.take(i + 1)));
        }
        i = i + 1;
    }
    proof {
        assert(s@.take(n as int) =~= s@);
    }
}

/// Appends a scalar as it is written on the wire.
fn append_scalar(out: &mut String, v: &JsonScalar)
    ensures
        final(out)@ == old(out)@ + render_scalar(v.model()),
{
    match v {
        JsonScalar::Null => out.append("null"),
        JsonScalar::Bool(b) => {
            if *b {
                out.append("true")
            } else {
                out.append("false")
            }
        },
        JsonScalar::Number(lex) => out.append(lex.as_str()),
        JsonScalar::Text(t) => {
            out.append("\"");
            append_escaped(out, t.as_str());
            out.append("\"");
            proof {
                assert(out@ =~= old(out)@ + render_scalar(v.model()));
            }
        },
    }
}

/// Appends an optional scalar field value: `null` when absent.
fn append_opt_scalar(out: &mut String, v: &Option<JsonScalar>)
    ensures
        final(out)@ == old(out)@ + render_opt(opt_model(*v)),
{
    match v {
        None => out.append("null"),
        Some(sc) => append_scalar(out, sc),
    }
}

/// Renders the chat-message frame broadcast to a room.
pub fn encode_chat_message(
    user: &String,
    datetime: &String,
    message: &Option<JsonScalar>,
    image: &Option<JsonScalar>,
    reply: &Option<JsonScalar>,
) -> (r: String)
    ensures
        r@ == chat_wire(user@, datetime@, opt_model(*message), opt_model(*image), opt_model(*reply)),
{
    let mut out = String::from_str("{\"userid\":\"");
    append_escaped(&mut out, user.as_str());
    out.append("\",\"datetime\":\"");
    append_escaped(&mut out, datetime.as_str());
    out.append("\",\"text\":");
    append_opt_scalar(&mut out, message);
    out.append(",\"image\":");
    append_opt_scalar(&mut out, image);
    out.append(",\"reply\":");
    append_opt_scalar(&mut out, reply);
    out.append("}");
    proof {
        assert(out@ =~= chat_wire(
            user@,
            datetime@,
            opt_model(*message),
            opt_model(*image),
            opt_model(*reply),
        ));
    }
    out
}

/// Renders the typing-indicator frame broadcast to a room.
pub fn encode_typing(user: &String) -> (r: String)
    ensures
        r@ == typing_wire(user@),
{
    let mut out = String::from_str("{\"userid\":\"");
    append_escaped(&mut out, user.as_str());
    out.append("\",\"istyping\":true}");
    proof {
        assert(out@ =~= typing_wire(user@));
    }
    out
}

/// Renders the presence frame announcing a join.
pub fn presence_joined(user: &String) -> (r: String)
    ensures
        r@ == presence_joined_wire(user@),
{
    let mut out = user.clone();
    out.append(" joined.");
    out
}

/// Renders the presence frame announcing a leave.
pub fn presence_left(user: &String) -> (r: String)
    ensures
        r@ == presence_left_wire(user@),
{
    let mut out = user.clone();
    out.append(" left.");
    out
}

} // verus!
