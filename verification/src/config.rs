//! Per-repository configuration: the `.autogit.json` payload, its defaults,
//! the serialized form, the parser, and the clamping rule applied on load.
//!
//! The file format is a pretty-printed JSON object with exactly the fields
//! `interval_seconds` (non-negative integer), `exclude` (array of strings)
//! and `enabled` (boolean), in any order. Strings are written with `"`,
//! `\`, and the common control characters escaped; `\uXXXX` escapes are not
//! produced and not accepted.
use vstd::prelude::*;

use crate::text::{
    dec_spec, digits_val, is_digit, is_space, has_prefix, to_chars, from_chars, subvec, chars_eq,
    parse_u64, dec_chars, digit_char, digit_val,
};

verus! {

/// Configuration stored at `<repo>/.autogit.json`.
#[derive(Debug, Clone)]
pub struct AutogitConfig {
    /// Minimum number of seconds between two commit attempts. `0` in the
    /// file is coerced to `1` on load.
    pub interval_seconds: u64,
    /// User-supplied exclusion patterns, layered on top of the intrinsic
    /// component blacklist.
    pub exclude: Vec<String>,
    /// When false the daemon discards pending paths instead of committing.
    pub enabled: bool,
}

/// The default exclusion patterns, as character sequences.
pub open spec fn default_exclude() -> Seq<Seq<char>> {
    seq![
        "node_modules"@,
        ".git"@,
        "dist"@,
        "build"@,
        "target"@,
        ".next"@,
    ]
}

impl Default for AutogitConfig {
    /// 60-second interval, the six standard build-artifact excludes, enabled.
    fn default() -> (c: Self)
        ensures
            c.interval_seconds == 60,
            c.enabled,
            c.exclude.deep_view() == default_exclude(),
    {
        let exclude: Vec<String> = vec![
            "node_modules".to_string(),
            ".git".to_string(),
            "dist".to_string(),
            "build".to_string(),
            "target".to_string(),
            ".next".to_string(),
        ];
        proof {
            assert(exclude.deep_view() =~= default_exclude());
        }
        AutogitConfig { interval_seconds: 60, exclude, enabled: true }
    }
}

// ---------------------------------------------------------------------
// Serialized form
// ---------------------------------------------------------------------

/// The characters written for `c` inside a JSON string.
pub open spec fn escape_char(c: char) -> Seq<char> {
    if c == '"' {
        seq!['\\', '"']
    } else if c == '\\' {
        seq!['\\', '\\']
    } else if c == '\n' {
        seq!['\\', 'n']
    } else if c == '\t' {
        seq!['\\', 't']
    } else if c == '\r' {
        seq!['\\', 'r']
    } else if c == '\u{8}' {
        seq!['\\', 'b']
    } else if c == '\u{c}' {
        seq!['\\', 'f']
    } else {
        seq![c]
    }
}

/// `s` with every character escaped for a JSON string body.
pub open spec fn json_escape(s: Seq<char>) -> Seq<char>
    decreases s.len(),
{
    if s.len() == 0 {
        Seq::empty()
    } else {
        escape_char(s[0]) + json_escape(s.skip(1))
    }
}

/// One line of the exclude array: four spaces of indent and the quoted
/// pattern.
pub open spec fn exclude_item(e: Seq<char>) -> Seq<char> {
    "    \""@ + json_escape(e) + "\""@
}

/// The exclude array's lines, joined with `,\n`.
pub open spec fn exclude_items(ex: Seq<Seq<char>>) -> Seq<char>
    decreases ex.len(),
{
    if ex.len() == 0 {
        Seq::empty()
    } else if ex.len() == 1 {
        exclude_item(ex[0])
    } else {
        exclude_item(ex[0]) + ",\n"@ + exclude_items(ex.skip(1))
    }
}

/// The serialized exclude array.
pub open spec fn exclude_json(ex: Seq<Seq<char>>) -> Seq<char> {
    if ex.len() == 0 {
        "[]"@
    } else {
        "[\n"@ + exclude_items(ex) + "\n  ]"@
    }
}

/// The serialized boolean.
pub open spec fn bool_json(b: bool) -> Seq<char> {
    if b {
        "true"@
    } else {
        "false"@
    }
}

/// The full serialized configuration file.
pub open spec fn config_json(interval: nat, ex: Seq<Seq<char>>, enabled: bool) -> Seq<char> {
    "{\n  \"interval_seconds\": "@ + dec_spec(interval) + ",\n  \"exclude\": "@ + exclude_json(ex)
        + ",\n  \"enabled\": "@ + bool_json(enabled) + "\n}"@
}

fn push_str_chars(out: &mut Vec<char>, s: &str)
    ensures
        final(out)@ == old(out)@ + s@,
{
    let v = to_chars(s);
    let mut i: usize = 0;
    while i < v.len()
        invariant
            v@ == s@,
            i <= v@.len(),
            out@ == old(out)@ + s@.take(i as int),
        decreases v@.len() - i,
    {
        out.push(v[i]);
        i = i + 1;
        proof {
            assert(out@ =~= old(out)@ + s@.take(i as int));
        }
    }
    proof {
        assert(out@ =~= old(out)@ + s@);
    }
}

fn push_escaped(out: &mut Vec<char>, e: &Vec<char>)
    ensures
        final(out)@ == old(out)@ + json_escape(e@),
{
    proof {
        assert(e@.skip(0) =~= e@);
    }
    let mut i: usize = 0;
    while i < e.len()
        invariant
            i <= e@.len(),
            out@ + json_escape(e@.skip(i as int)) == old(out)@ + json_escape(e@),
        decreases e@.len() - i,
    {
        let c: char = e[i];
        if c == '"' {
            out.push('\\');
            out.push('"');
        } else if c == '\\' {
            out.push('\\');
            out.push('\\');
        } else if c == '\n' {
            out.push('\\');
            out.push('n');
        } else if c == '\t' {
            out.push('\\');
            out.push('t');
        } else if c == '\r' {
            out.push('\\');
            out.push('r');
        } else if c == '\u{8}' {
            out.push('\\');
            out.push('b');
        } else if c == '\u{c}' {
            out.push('\\');
            out.push('f');
        } else {
            out.push(c);
        }
        proof {
            let rest = e@.skip(i as int);
            assert(rest[0] == c);
            assert(rest.skip(1) =~= e@.skip(i + 1));
            assert(json_escape(rest) == escape_char(c) + json_escape(e@.skip(i + 1)));
            assert(out@ + json_escape(e@.skip(i + 1)) =~= old(out)@ + json_escape(e@));
        }
        i = i + 1;
    }
    proof {
        assert(e@.skip(e@.len() as int) =~= Seq::<char>::empty());
        assert(out@ =~= out@ + json_escape(e@.skip(e@.len() as int)));
    }
}

/// Serialize a configuration to the exact on-disk text.
#[verifier::loop_isolation(false)]
pub fn config_to_json(c: &AutogitConfig) -> (r: String)
    ensures
        r@ == config_json(c.interval_seconds as nat, c.exclude.deep_view(), c.enabled),
{
    let ghost ex = c.exclude.deep_view();
    let mut out: Vec<char> = Vec::new();
    push_str_chars(&mut out, "{\n  \"interval_seconds\": ");
    let digits = dec_chars(c.interval_seconds);
    let mut i: usize = 0;
    while i < digits.len()
        invariant
            i <= digits@.len(),
            out@ == "{\n  \"interval_seconds\": "@ + digits@.take(i as int),
        decreases digits@.len() - i,
    {
        out.push(digits[i]);
        i = i + 1;
        proof {
            assert(out@ =~= "{\n  \"interval_seconds\": "@ + digits@.take(i as int));
        }
    }
    proof {
        assert(digits@.take(digits@.len() as int) =~= digits@);
    }
    push_str_chars(&mut out, ",\n  \"exclude\": ");
    let ghost head = "{\n  \"interval_seconds\": "@ + dec_spec(c.interval_seconds as nat)
        + ",\n  \"exclude\": "@;
    proof {
        assert(out@ =~= head);
    }
    if c.exclude.len() == 0 {
        push_str_chars(&mut out, "[]");
        proof {
            assert(out@ =~= head + exclude_json(ex));
        }
    } else {
        push_str_chars(&mut out, "[\n");
        proof {
            assert(ex.skip(0) =~= ex);
            assert(out@ + exclude_items(ex) + "\n  ]"@ =~= head + exclude_json(ex));
        }
        let mut k: usize = 0;
        while k < c.exclude.len()
            invariant
                k <= c.exclude@.len(),
                c.exclude@.len() > 0,
                out@ + exclude_items(ex.skip(k as int)) + "\n  ]"@ == head
                    + exclude_json(ex),
            decreases c.exclude@.len() - k,
        {
            push_str_chars(&mut out, "    \"");
            let pat = to_chars(c.exclude[k].as_str());
            push_escaped(&mut out, &pat);
            push_str_chars(&mut out, "\"");
            proof {
                assert(pat@ == ex[k as int]);
            }
            if k + 1 < c.exclude.len() {
                push_str_chars(&mut out, ",\n");
                proof {
                    let rest = ex.skip(k as int);
                    assert(rest[0] == ex[k as int]);
                    assert(rest.skip(1) =~= ex.skip(k + 1));
                    assert(rest.len() > 1);
                    assert(exclude_items(rest) == exclude_item(ex[k as int]) + ",\n"@
                        + exclude_items(ex.skip(k + 1)));
                }
            } else {
                proof {
                    let rest = ex.skip(k as int);
                    assert(rest.len() == 1);
                    assert(rest[0] == ex[k as int]);
                    assert(exclude_items(rest) == exclude_item(ex[k as int]));
                    assert(ex.skip(k + 1) =~= Seq::<Seq<char>>::empty());
                }
            }
            k = k + 1;
            proof {
                assert(out@ + exclude_items(ex.skip(k as int)) + "\n  ]"@
                    =~= head + exclude_json(ex));
            }
        }
        push_str_chars(&mut out, "\n  ]");
        proof {
            assert(ex.skip(ex.len() as int) =~= Seq::<Seq<char>>::empty());
            assert(out@ =~= head + exclude_json(ex));
        }
    }
    push_str_chars(&mut out, ",\n  \"enabled\": ");
    if c.enabled {
        push_str_chars(&mut out, "true");
    } else {
        push_str_chars(&mut out, "false");
    }
    push_str_chars(&mut out, "\n}");
    proof {
        assert(out@ =~= config_json(c.interval_seconds as nat, ex, c.enabled));
    }
    from_chars(&out)
}

// ---------------------------------------------------------------------
// Parsing
// ---------------------------------------------------------------------

/// `s` with leading space characters removed.
pub open spec fn skip_ws(s: Seq<char>) -> Seq<char>
    decreases s.len(),
{
    if s.len() > 0 && is_space(s[0]) {
        skip_ws(s.skip(1))
    } else {
        s
    }
}

/// The character denoted by the escape code `c`, if it is a valid one.
pub open spec fn unescape_code(c: char) -> Option<char> {
    if c == '"' {
        Some('"')
    } else if c == '\\' {
        Some('\\')
    } else if c == '/' {
        Some('/')
    } else if c == 'n' {
        Some('\n')
    } else if c == 't' {
        Some('\t')
    } else if c == 'r' {
        Some('\r')
    } else if c == 'b' {
        Some('\u{8}')
    } else if c == 'f' {
        Some('\u{c}')
    } else {
        None
    }
}

/// Parse the body of a JSON string after the opening quote; yields the
/// unescaped contents and the remainder after the closing quote.
pub open spec fn parse_str_body(s: Seq<char>) -> Option<(Seq<char>, Seq<char>)>
    decreases s.len(),
{
    if s.len() == 0 {
        None
    } else if s[0] == '"' {
        Some((Seq::empty(), s.skip(1)))
    } else if s[0] == '\\' {
        if s.len() < 2 {
            None
        } else {
            match unescape_code(s[1]) {
                Some(c) => match parse_str_body(s.skip(2)) {
                    Some((t, r)) => Some((seq![c] + t, r)),
                    None => None,
                },
                None => None,
            }
        }
    } else {
        match parse_str_body(s.skip(1)) {
            Some((t, r)) => Some((seq![s[0]] + t, r)),
            None => None,
        }
    }
}

/// Parse a quoted JSON string.
pub open spec fn parse_string(s: Seq<char>) -> Option<(Seq<char>, Seq<char>)> {
    if s.len() > 0 && s[0] == '"' {
        parse_str_body(s.skip(1))
    } else {
        None
    }
}

/// Length of the leading run of decimal digits.
pub open spec fn digit_run(s: Seq<char>) -> int
    decreases s.len(),
{
    if s.len() > 0 && is_digit(s[0]) {
        1 + digit_run(s.skip(1))
    } else {
        0
    }
}

proof fn lemma_digit_run_bound(s: Seq<char>)
    ensures
        0 <= digit_run(s) <= s.len(),
    decreases s.len(),
{
    if s.len() > 0 && is_digit(s[0]) {
        lemma_digit_run_bound(s.skip(1));
    }
}

/// Parse a non-negative decimal integer, maximal munch.
pub open spec fn parse_number(s: Seq<char>) -> Option<(nat, Seq<char>)> {
    let k = digit_run(s);
    if k == 0 {
        None
    } else {
        Some((digits_val(s.take(k)), s.skip(k)))
    }
}

/// Parse `true` or `false`.
pub open spec fn parse_bool(s: Seq<char>) -> Option<(bool, Seq<char>)> {
    if has_prefix(s, "true"@) {
        Some((true, s.skip(4)))
    } else if has_prefix(s, "false"@) {
        Some((false, s.skip(5)))
    } else {
        None
    }
}

/// Parse the items of a nonempty string array, after the opening bracket
/// and any leading whitespace.
pub open spec fn parse_items(s: Seq<char>) -> Option<(Seq<Seq<char>>, Seq<char>)>
    decreases s.len(),
{
    match parse_string(s) {
        None => None,
        Some((e, r)) => {
            let r2 = skip_ws(r);
            if r2.len() == 0 {
                None
            } else if r2[0] == ',' {
                let r3 = skip_ws(r2.skip(1));
                if r3.len() < s.len() {
                    match parse_items(r3) {
                        Some((es, r4)) => Some((seq![e] + es, r4)),
                        None => None,
                    }
                } else {
                    None
                }
            } else if r2[0] == ']' {
                Some((seq![e], r2.skip(1)))
            } else {
                None
            }
        },
    }
}

/// Parse a JSON array of strings.
pub open spec fn parse_array(s: Seq<char>) -> Option<(Seq<Seq<char>>, Seq<char>)> {
    if s.len() > 0 && s[0] == '[' {
        let t = skip_ws(s.skip(1));
        if t.len() > 0 && t[0] == ']' {
            Some((Seq::empty(), t.skip(1)))
        } else {
            parse_items(t)
        }
    } else {
        None
    }
}

/// Partially-filled configuration fields while parsing the object.
pub open spec fn parse_field(
    s: Seq<char>,
    st: (Option<nat>, Option<Seq<Seq<char>>>, Option<bool>),
) -> Option<((Option<nat>, Option<Seq<Seq<char>>>, Option<bool>), Seq<char>)> {
    match parse_string(s) {
        None => None,
        Some((key, r)) => {
            let r1 = skip_ws(r);
            if r1.len() == 0 || r1[0] != ':' {
                None
            } else {
                let r2 = skip_ws(r1.skip(1));
                if key == "interval_seconds"@ {
                    if st.0 is Some {
                        None
                    } else {
                        match parse_number(r2) {
                            Some((n, r3)) => Some(((Some(n), st.1, st.2), r3)),
                            None => None,
                        }
                    }
                } else if key == "exclude"@ {
                    if st.1 is Some {
                        None
                    } else {
                        match parse_array(r2) {
                            Some((ex, r3)) => Some(((st.0, Some(ex), st.2), r3)),
                            None => None,
                        }
                    }
                } else if key == "enabled"@ {
                    if st.2 is Some {
                        None
                    } else {
                        match parse_bool(r2) {
                            Some((b, r3)) => Some(((st.0, st.1, Some(b)), r3)),
                            None => None,
                        }
                    }
                } else {
                    None
                }
            }
        },
    }
}

/// Parse the members of the configuration object until the closing brace;
/// every field must appear exactly once.
pub open spec fn parse_fields(
    s: Seq<char>,
    st: (Option<nat>, Option<Seq<Seq<char>>>, Option<bool>),
) -> Option<((nat, Seq<Seq<char>>, bool), Seq<char>)>
    decreases s.len(),
{
    match parse_field(s, st) {
        None => None,
        Some((st2, r)) => {
            let r4 = skip_ws(r);
            if r4.len() == 0 {
                None
            } else if r4[0] == '}' {
                match (st2.0, st2.1, st2.2) {
                    (Some(n), Some(ex), Some(b)) => Some(((n, ex, b), r4.skip(1))),
                    _ => None,
                }
            } else if r4[0] == ',' {
                let r5 = skip_ws(r4.skip(1));
                if r5.len() < s.len() {
                    parse_fields(r5, st2)
                } else {
                    None
                }
            } else {
                None
            }
        },
    }
}

proof fn lemma_fields_keep_interval(s: Seq<char>, st: (Option<nat>, Option<Seq<Seq<char>>>, Option<bool>))
    requires
        st.0 is Some,
    ensures
        match parse_fields(s, st) {
            Some(((n, _ex, _b), _r)) => Some(n as nat) == st.0,
            None => true,
        },
    decreases s.len(),
{
    match parse_field(s, st) {
        None => {},
        Some((st2, r)) => {
            assert(st2.0 == st.0);
            let r4 = skip_ws(r);
            if r4.len() > 0 && r4[0] == ',' {
                let r5 = skip_ws(r4.skip(1));
                if r5.len() < s.len() {
                    lemma_fields_keep_interval(r5, st2);
                }
            }
        },
    }
}

/// Parse a whole configuration file: interval, excludes and enablement, in
/// any member order, with nothing but whitespace around the object.
pub open spec fn parse_config_spec(text: Seq<char>) -> Option<(nat, Seq<Seq<char>>, bool)> {
    let s = skip_ws(text);
    if s.len() > 0 && s[0] == '{' {
        let t = skip_ws(s.skip(1));
        match parse_fields(t, (None, None, None)) {
            Some((triple, rest)) => if skip_ws(rest).len() == 0 {
                Some(triple)
            } else {
                None
            },
            None => None,
        }
    } else {
        None
    }
}

// ---------------------------------------------------------------------
// Executable parser
// ---------------------------------------------------------------------

proof fn lemma_skip_ws_at(s: Seq<char>, t: int)
    requires
        0 <= t <= s.len(),
        forall|k: int| 0 <= k < t ==> is_space(s[k]),
        t < s.len() ==> !is_space(s[t]),
    ensures
        skip_ws(s) == s.skip(t),
    decreases t,
{
    if t == 0 {
        assert(s.skip(0) =~= s);
    } else {
        assert(is_space(s[0]));
        lemma_skip_ws_at(s.skip(1), t - 1);
        assert(s.skip(1).skip(t - 1) =~= s.skip(t));
    }
}

#[verifier::loop_isolation(false)]
fn p_skip_ws(v: &Vec<char>, i: usize) -> (j: usize)
    requires
        i <= v@.len(),
    ensures
        i <= j <= v@.len(),
        skip_ws(v@.skip(i as int)) == v@.skip(j as int),
{
    let mut j: usize = i;
    while j < v.len() && crate::text::is_space_char(v[j])
        invariant
            i <= j <= v@.len(),
            forall|k: int| i <= k < j ==> is_space(v@[k]),
        decreases v@.len() - j,
    {
        j = j + 1;
    }
    proof {
        let s = v@.skip(i as int);
        assert forall|k: int| 0 <= k < j - i implies is_space(s[k]) by {
            assert(s[k] == v@[i + k]);
        }
        if (j as int) - (i as int) < s.len() {
            assert(s[j - i] == v@[j as int]);
        }
        lemma_skip_ws_at(s, j - i);
        assert(s.skip(j - i) =~= v@.skip(j as int));
    }
    j
}

fn unescape_code_exec(c: char) -> (r: Option<char>)
    ensures
        r == unescape_code(c),
{
    if c == '"' {
        Some('"')
    } else if c == '\\' {
        Some('\\')
    } else if c == '/' {
        Some('/')
    } else if c == 'n' {
        Some('\n')
    } else if c == 't' {
        Some('\t')
    } else if c == 'r' {
        Some('\r')
    } else if c == 'b' {
        Some('\u{8}')
    } else if c == 'f' {
        Some('\u{c}')
    } else {
        None
    }
}

fn p_str_body(v: &Vec<char>, j: usize) -> (r: Option<(Vec<char>, usize)>)
    requires
        j <= v@.len(),
    ensures
        match r {
            Some((t, j2)) => j < j2 <= v@.len() && parse_str_body(v@.skip(j as int)) == Some(
                (t@, v@.skip(j2 as int)),
            ),
            None => parse_str_body(v@.skip(j as int)) is None,
        },
    decreases v@.len() - j,
{
    let ghost s = v@.skip(j as int);
    if j >= v.len() {
        return None;
    }
    let c: char = v[j];
    proof {
        assert(s[0] == c);
    }
    if c == '"' {
        let t: Vec<char> = Vec::new();
        proof {
            assert(t@ =~= Seq::<char>::empty());
            assert(s.skip(1) =~= v@.skip(j + 1));
        }
        return Some((t, j + 1));
    }
    if c == '\\' {
        if j + 1 >= v.len() {
            proof {
                assert(s.len() < 2);
            }
            return None;
        }
        let e: char = v[j + 1];
        proof {
            assert(s[1] == e);
        }
        match unescape_code_exec(e) {
            Some(u) => {
                proof {
                    assert(s.skip(2) =~= v@.skip(j + 2));
                }
                match p_str_body(v, j + 2) {
                    Some((tail, j2)) => {
                        let mut t: Vec<char> = Vec::new();
                        t.push(u);
                        let mut tail2 = tail;
                        let ghost tail_view = tail2@;
                        t.append(&mut tail2);
                        proof {
                            assert(t@ =~= seq![u] + tail_view);
                        }
                        Some((t, j2))
                    },
                    None => None,
                }
            },
            None => None,
        }
    } else {
        proof {
            assert(s.skip(1) =~= v@.skip(j + 1));
        }
        match p_str_body(v, j + 1) {
            Some((tail, j2)) => {
                let mut t: Vec<char> = Vec::new();
                t.push(c);
                let mut tail2 = tail;
                let ghost tail_view = tail2@;
                t.append(&mut tail2);
                proof {
                    assert(t@ =~= seq![c] + tail_view);
                }
                Some((t, j2))
            },
            None => None,
        }
    }
}

fn p_string(v: &Vec<char>, i: usize) -> (r: Option<(Vec<char>, usize)>)
    requires
        i <= v@.len(),
    ensures
        match r {
            Some((t, j)) => i + 2 <= j <= v@.len() && parse_string(v@.skip(i as int)) == Some(
                (t@, v@.skip(j as int)),
            ),
            None => parse_string(v@.skip(i as int)) is None,
        },
{
    if i >= v.len() || v[i] != '"' {
        proof {
            if (i as int) < v@.len() {
                assert(v@.skip(i as int)[0] == v@[i as int]);
            }
        }
        return None;
    }
    proof {
        assert(v@.skip(i as int)[0] == '"');
        assert(v@.skip(i as int).skip(1) =~= v@.skip(i + 1));
    }
    p_str_body(v, i + 1)
}

proof fn lemma_digit_run_at(s: Seq<char>, t: int)
    requires
        0 <= t <= s.len(),
        forall|k: int| 0 <= k < t ==> is_digit(s[k]),
        t < s.len() ==> !is_digit(s[t]),
    ensures
        digit_run(s) == t,
    decreases t,
{
    if t > 0 {
        assert(is_digit(s[0]));
        lemma_digit_run_at(s.skip(1), t - 1);
    }
}

#[verifier::loop_isolation(false)]
fn p_number(v: &Vec<char>, i: usize) -> (r: Option<(u64, usize)>)
    requires
        i <= v@.len(),
    ensures
        match r {
            Some((x, j)) => i < j <= v@.len() && parse_number(v@.skip(i as int)) == Some(
                (x as nat, v@.skip(j as int)),
            ),
            None => parse_number(v@.skip(i as int)) is None || (match parse_number(
                v@.skip(i as int),
            ) {
                Some((n, _)) => n > u64::MAX,
                None => false,
            }),
        },
{
    let ghost s = v@.skip(i as int);
    let mut j: usize = i;
    while j < v.len() && '0' <= v[j] && v[j] <= '9'
        invariant
            i <= j <= v@.len(),
            forall|k: int| i <= k < j ==> is_digit(v@[k]),
        decreases v@.len() - j,
    {
        j = j + 1;
    }
    proof {
        assert forall|k: int| 0 <= k < j - i implies is_digit(s[k]) by {
            assert(s[k] == v@[i + k]);
        }
        if (j as int) - (i as int) < s.len() {
            assert(s[j - i] == v@[j as int]);
        }
        lemma_digit_run_at(s, j - i);
    }
    if j == i {
        return None;
    }
    let sub = subvec(v, i, j);
    proof {
        assert(sub@ =~= s.take(j - i));
        assert(s.skip(j - i) =~= v@.skip(j as int));
    }
    match parse_u64(&sub) {
        Some(x) => Some((x, j)),
        None => {
            proof {
                assert(sub@.len() > 0);
                assert forall|k: int| 0 <= k < sub@.len() implies is_digit(sub@[k]) by {
                    assert(sub@[k] == s[k]);
                }
            }
            None
        },
    }
}

fn p_bool(v: &Vec<char>, i: usize) -> (r: Option<(bool, usize)>)
    requires
        i <= v@.len(),
    ensures
        match r {
            Some((b, j)) => i < j <= v@.len() && parse_bool(v@.skip(i as int)) == Some(
                (b, v@.skip(j as int)),
            ),
            None => parse_bool(v@.skip(i as int)) is None,
        },
{
    proof {
        reveal_strlit("true");
        reveal_strlit("false");
    }
    let ghost s = v@.skip(i as int);
    let n: usize = v.len();
    let t = to_chars("true");
    if crate::text::occurs_at_exec(v, &t, i) {
        proof {
            assert(s.subrange(0, 4) =~= v@.subrange(i as int, i + 4));
            assert(has_prefix(s, "true"@));
            assert(s.skip(4) =~= v@.skip(i + 4));
        }
        return Some((true, i + 4));
    }
    let f = to_chars("false");
    if crate::text::occurs_at_exec(v, &f, i) {
        proof {
            assert(s.subrange(0, 5) =~= v@.subrange(i as int, i + 5));
            assert(has_prefix(s, "false"@));
            assert(s.skip(5) =~= v@.skip(i + 5));
            if has_prefix(s, "true"@) {
                assert(s.subrange(0, 4) =~= v@.subrange(i as int, i + 4));
            }
        }
        return Some((false, i + 5));
    }
    proof {
        if has_prefix(s, "true"@) {
            assert(s.subrange(0, 4) =~= v@.subrange(i as int, i + 4));
        }
        if has_prefix(s, "false"@) {
            assert(s.subrange(0, 5) =~= v@.subrange(i as int, i + 5));
        }
    }
    None
}

fn p_items(v: &Vec<char>, i: usize) -> (r: Option<(Vec<String>, usize)>)
    requires
        i <= v@.len(),
    ensures
        match r {
            Some((es, j)) => i < j <= v@.len() && parse_items(v@.skip(i as int)) == Some(
                (es.deep_view(), v@.skip(j as int)),
            ),
            None => parse_items(v@.skip(i as int)) is None,
        },
    decreases v@.len() - i,
{
    let ghost s = v@.skip(i as int);
    match p_string(v, i) {
        None => None,
        Some((e, j)) => {
            let j2 = p_skip_ws(v, j);
            if j2 >= v.len() {
                return None;
            }
            let c: char = v[j2];
            proof {
                assert(v@.skip(j2 as int)[0] == c);
            }
            if c == ',' {
                proof {
                    assert(v@.skip(j2 as int).skip(1) =~= v@.skip(j2 + 1));
                }
                let j3 = p_skip_ws(v, j2 + 1);
                match p_items(v, j3) {
                    Some((tail, j4)) => {
                        let mut es: Vec<String> = Vec::new();
                        es.push(from_chars(&e));
                        let mut tail2 = tail;
                        let ghost tail_view = tail2.deep_view();
                        let ghost e_view = e@;
                        es.append(&mut tail2);
                        proof {
                            assert(es.deep_view() =~= seq![e_view] + tail_view);
                        }
                        Some((es, j4))
                    },
                    None => None,
                }
            } else if c == ']' {
                let mut es: Vec<String> = Vec::new();
                es.push(from_chars(&e));
                proof {
                    assert(es.deep_view() =~= seq![e@]);
                    assert(v@.skip(j2 as int).skip(1) =~= v@.skip(j2 + 1));
                }
                Some((es, j2 + 1))
            } else {
                None
            }
        },
    }
}

fn p_array(v: &Vec<char>, i: usize) -> (r: Option<(Vec<String>, usize)>)
    requires
        i <= v@.len(),
    ensures
        match r {
            Some((es, j)) => i < j <= v@.len() && parse_array(v@.skip(i as int)) == Some(
                (es.deep_view(), v@.skip(j as int)),
            ),
            None => parse_array(v@.skip(i as int)) is None,
        },
{
    let ghost s = v@.skip(i as int);
    if i >= v.len() || v[i] != '[' {
        proof {
            if (i as int) < v@.len() {
                assert(s[0] == v@[i as int]);
            }
        }
        return None;
    }
    proof {
        assert(s[0] == '[');
        assert(s.skip(1) =~= v@.skip(i + 1));
    }
    let j = p_skip_ws(v, i + 1);
    if j < v.len() {
        let c: char = v[j];
        proof {
            assert(v@.skip(j as int)[0] == c);
        }
        if c == ']' {
            let es: Vec<String> = Vec::new();
            proof {
                assert(es.deep_view() =~= Seq::<Seq<char>>::empty());
                assert(v@.skip(j as int).skip(1) =~= v@.skip(j + 1));
            }
            return Some((es, j + 1));
        }
    }
    p_items(v, j)
}

/// Ghost view of the partially-filled exec parsing state.
pub open spec fn st_view(st: (Option<u64>, Option<Vec<String>>, Option<bool>)) -> (
    Option<nat>,
    Option<Seq<Seq<char>>>,
    Option<bool>,
) {
    (
        match st.0 {
            Some(x) => Some(x as nat),
            None => None,
        },
        match st.1 {
            Some(es) => Some(es.deep_view()),
            None => None,
        },
        st.2,
    )
}

fn p_fields(v: &Vec<char>, i: usize, st: (Option<u64>, Option<Vec<String>>, Option<bool>)) -> (r:
    Option<((u64, Vec<String>, bool), usize)>)
    requires
        i <= v@.len(),
    ensures
        match r {
            Some(((x, es, b), j)) => i < j <= v@.len() && parse_fields(
                v@.skip(i as int),
                st_view(st),
            ) == Some(((x as nat, es.deep_view(), b), v@.skip(j as int))),
            None => parse_fields(v@.skip(i as int), st_view(st)) is None || (match parse_fields(
                v@.skip(i as int),
                st_view(st),
            ) {
                Some(((n, _ex, _b), _r)) => n > u64::MAX,
                None => false,
            }),
        },
    decreases v@.len() - i,
{
    let ghost s = v@.skip(i as int);
    let ghost stv = st_view(st);
    let (st_i, st_ex, st_en) = st;
    match p_string(v, i) {
        None => None,
        Some((key, j)) => {
            let j1 = p_skip_ws(v, j);
            if j1 >= v.len() {
                return None;
            }
            let c1: char = v[j1];
            proof {
                assert(v@.skip(j1 as int)[0] == c1);
            }
            if c1 != ':' {
                return None;
            }
            proof {
                assert(v@.skip(j1 as int).skip(1) =~= v@.skip(j1 + 1));
            }
            let j2 = p_skip_ws(v, j1 + 1);
            let key_interval = to_chars("interval_seconds");
            let key_exclude = to_chars("exclude");
            let key_enabled = to_chars("enabled");
            let st2: (Option<u64>, Option<Vec<String>>, Option<bool>);
            let j3: usize;
            if chars_eq(&key, &key_interval) {
                if st_i.is_some() {
                    return None;
                }
                match p_number(v, j2) {
                    Some((x, jn)) => {
                        st2 = (Some(x), st_ex, st_en);
                        j3 = jn;
                    },
                    None => {
                        proof {
                            if parse_number(v@.skip(j2 as int)) is Some {
                                let (n, r3) = parse_number(v@.skip(j2 as int)).unwrap();
                                assert(parse_field(s, stv) == Some(
                                    ((Some(n), stv.1, stv.2), r3),
                                ));
                                lemma_fields_keep_interval_from(s, stv, n, r3);
                            }
                        }
                        return None;
                    },
                }
            } else if chars_eq(&key, &key_exclude) {
                if st_ex.is_some() {
                    return None;
                }
                match p_array(v, j2) {
                    Some((es, jn)) => {
                        st2 = (st_i, Some(es), st_en);
                        j3 = jn;
                    },
                    None => {
                        return None;
                    },
                }
            } else if chars_eq(&key, &key_enabled) {
                if st_en.is_some() {
                    return None;
                }
                match p_bool(v, j2) {
                    Some((b, jn)) => {
                        st2 = (st_i, st_ex, Some(b));
                        j3 = jn;
                    },
                    None => {
                        return None;
                    },
                }
            } else {
                return None;
            }
            let ghost st2v = st_view(st2);
            proof {
                assert(parse_field(s, stv) == Some((st2v, v@.skip(j3 as int))));
            }
            let j4 = p_skip_ws(v, j3);
            if j4 >= v.len() {
                return None;
            }
            let c4: char = v[j4];
            proof {
                assert(v@.skip(j4 as int)[0] == c4);
            }
            if c4 == '}' {
                proof {
                    assert(v@.skip(j4 as int).skip(1) =~= v@.skip(j4 + 1));
                }
                let (f_i, f_ex, f_en) = st2;
                match (f_i, f_ex, f_en) {
                    (Some(x), Some(es), Some(b)) => {
                        return Some(((x, es, b), j4 + 1));
                    },
                    _ => {
                        return None;
                    },
                }
            } else if c4 == ',' {
                proof {
                    assert(v@.skip(j4 as int).skip(1) =~= v@.skip(j4 + 1));
                }
                let j5 = p_skip_ws(v, j4 + 1);
                return p_fields(v, j5, st2);
            } else {
                return None;
            }
        },
    }
}

proof fn lemma_fields_keep_interval_from(
    s: Seq<char>,
    stv: (Option<nat>, Option<Seq<Seq<char>>>, Option<bool>),
    n: nat,
    r3: Seq<char>,
)
    requires
        parse_field(s, stv) == Some::<((Option<nat>, Option<Seq<Seq<char>>>, Option<bool>), Seq<
            char,
        >)>(((Some(n), stv.1, stv.2), r3)),
    ensures
        match parse_fields(s, stv) {
            Some(((m, _ex, _b), _r)) => m == n,
            None => true,
        },
{
    let st2 = (Some(n), stv.1, stv.2);
    let r4 = skip_ws(r3);
    if r4.len() > 0 && r4[0] == ',' {
        let r5 = skip_ws(r4.skip(1));
        if r5.len() < s.len() {
            lemma_fields_keep_interval(r5, st2);
        }
    }
}

/// Parse the on-disk configuration text, without clamping.
pub fn parse_config(text: &str) -> (r: Result<AutogitConfig, String>)
    ensures
        match r {
            Ok(c) => parse_config_spec(text@) == Some(
                (c.interval_seconds as nat, c.exclude.deep_view(), c.enabled),
            ),
            Err(_) => parse_config_spec(text@) is None || (match parse_config_spec(text@) {
                Some((n, _ex, _en)) => n > u64::MAX,
                None => false,
            }),
        },
{
    let v = to_chars(text);
    proof {
        assert(v@.skip(0) =~= text@);
    }
    let j0 = p_skip_ws(&v, 0);
    if j0 >= v.len() {
        return Err("failed to parse .autogit.json".to_string());
    }
    let c0: char = v[j0];
    proof {
        assert(v@.skip(j0 as int)[0] == c0);
    }
    if c0 != '{' {
        return Err("failed to parse .autogit.json".to_string());
    }
    proof {
        assert(v@.skip(j0 as int).skip(1) =~= v@.skip(j0 + 1));
    }
    let j1 = p_skip_ws(&v, j0 + 1);
    let ghost empty_st = (None::<nat>, None::<Seq<Seq<char>>>, None::<bool>);
    proof {
        assert(st_view((None, None, None)) == empty_st);
    }
    match p_fields(&v, j1, (None, None, None)) {
        Some(((x, es, b), j2)) => {
            let j3 = p_skip_ws(&v, j2);
            if j3 == v.len() {
                proof {
                    assert(v@.skip(j3 as int) =~= Seq::<char>::empty());
                }
                Ok(AutogitConfig { interval_seconds: x, exclude: es, enabled: b })
            } else {
                proof {
                    assert(skip_ws(v@.skip(j2 as int)).len() > 0);
                }
                Err("failed to parse .autogit.json".to_string())
            }
        },
        None => Err("failed to parse .autogit.json".to_string()),
    }
}

/// The interval actually used for a parsed raw value: zero is coerced to
/// one.
pub open spec fn clamped_interval(n: nat) -> nat {
    if n == 0 {
        1
    } else {
        n
    }
}

/// Load semantics of the config store: with no file present, the defaults
/// are returned together with the payload to create the file from; with a
/// file present, its text is parsed and the interval clamped.
pub fn load_or_create_config(existing: Option<&String>) -> (r: Result<
    (AutogitConfig, Option<String>),
    String,
>)
    ensures
        match existing {
            None => match r {
                Ok((c, w)) => c.interval_seconds == 60 && c.enabled && c.exclude.deep_view()
                    == default_exclude() && (w matches Some(payload) && payload@ == config_json(
                    60,
                    default_exclude(),
                    true,
                )),
                Err(_) => false,
            },
            Some(text) => match r {
                Ok((c, w)) => w is None && (match parse_config_spec(text@) {
                    Some((n, ex, en)) => n <= u64::MAX && c.interval_seconds
                        == clamped_interval(n) && c.exclude.deep_view() == ex && c.enabled == en,
                    None => false,
                }),
                Err(_) => parse_config_spec(text@) is None || (match parse_config_spec(text@) {
                    Some((n, _ex, _en)) => n > u64::MAX,
                    None => false,
                }),
            },
        },
{
    match existing {
        None => {
            let c = AutogitConfig::default();
            let payload = config_to_json(&c);
            Ok((c, Some(payload)))
        },
        Some(text) => match parse_config(text.as_str()) {
            Ok(c) => {
                let mut c2 = c;
                if c2.interval_seconds == 0 {
                    c2.interval_seconds = 1;
                }
                Ok((c2, None))
            },
            Err(e) => Err(e),
        },
    }
}

// ---------------------------------------------------------------------
// The serializer and the parser are inverse to each other
// ---------------------------------------------------------------------

proof fn lemma_skip_ws_concat(a: Seq<char>, r: Seq<char>)
    requires
        forall|k: int| 0 <= k < a.len() ==> is_space(a[k]),
    ensures
        skip_ws(a + r) == skip_ws(r),
    decreases a.len(),
{
    if a.len() == 0 {
        assert(a + r =~= r);
    } else {
        assert((a + r)[0] == a[0]);
        assert((a + r).skip(1) =~= a.skip(1) + r);
        lemma_skip_ws_concat(a.skip(1), r);
    }
}

/// A character that the escaper does not pass through unchanged.
pub open spec fn needs_escape(c: char) -> bool {
    c == '"' || c == '\\' || c == '\n' || c == '\t' || c == '\r' || c == '\u{8}' || c == '\u{c}'
}

proof fn lemma_json_escape_id(s: Seq<char>)
    requires
        forall|k: int| 0 <= k < s.len() ==> !needs_escape(s[k]),
    ensures
        json_escape(s) == s,
    decreases s.len(),
{
    if s.len() == 0 {
        assert(json_escape(s) =~= s);
    } else {
        assert(!needs_escape(s[0]));
        lemma_json_escape_id(s.skip(1));
        assert(json_escape(s) =~= seq![s[0]] + s.skip(1));
        assert(seq![s[0]] + s.skip(1) =~= s);
    }
}

proof fn lemma_parse_str_body_emit(e: Seq<char>, rest: Seq<char>)
    ensures
        parse_str_body(json_escape(e) + "\""@ + rest) == Some((e, rest)),
    decreases e.len(),
{
    reveal_strlit("\"");
    let s = json_escape(e) + "\""@ + rest;
    if e.len() == 0 {
        assert(json_escape(e) =~= Seq::<char>::empty());
        assert(s[0] == '"');
        assert(s.skip(1) =~= rest);
    } else {
        let c = e[0];
        let tail = json_escape(e.skip(1)) + "\""@ + rest;
        lemma_parse_str_body_emit(e.skip(1), rest);
        if needs_escape(c) {
            assert(escape_char(c).len() == 2);
            assert(escape_char(c)[0] == '\\');
            assert(s[0] == '\\');
            assert(s[1] == escape_char(c)[1]);
            assert(unescape_code(escape_char(c)[1]) == Some(c));
            assert(s.skip(2) =~= tail);
            assert(parse_str_body(s) == Some((seq![c] + e.skip(1), rest)));
            assert(seq![c] + e.skip(1) =~= e);
        } else {
            assert(escape_char(c) =~= seq![c]);
            assert(s[0] == c);
            assert(c != '"' && c != '\\');
            assert(s.skip(1) =~= tail);
            assert(parse_str_body(s) == Some((seq![c] + e.skip(1), rest)));
            assert(seq![c] + e.skip(1) =~= e);
        }
    }
}

proof fn lemma_parse_string_emit(e: Seq<char>, rest: Seq<char>)
    ensures
        parse_string("\""@ + json_escape(e) + "\""@ + rest) == Some((e, rest)),
{
    reveal_strlit("\"");
    let s = "\""@ + json_escape(e) + "\""@ + rest;
    assert(s[0] == '"');
    assert(s.skip(1) =~= json_escape(e) + "\""@ + rest);
    lemma_parse_str_body_emit(e, rest);
}

proof fn lemma_dec_digits(n: nat)
    ensures
        dec_spec(n).len() >= 1,
        forall|k: int| 0 <= k < dec_spec(n).len() ==> is_digit(#[trigger] dec_spec(n)[k]),
        digits_val(dec_spec(n)) == n,
    decreases n,
{
    if n < 10 {
        let s = dec_spec(n);
        assert(s =~= seq![digit_char(n)]);
        assert(is_digit(digit_char(n)));
        assert(s.take(0) =~= Seq::<char>::empty());
        assert(digits_val(s) == digits_val(s.take(0)) * 10 + digit_val(s[0]));
        assert(digit_val(digit_char(n)) == n);
    } else {
        lemma_dec_digits(n / 10);
        let hd = dec_spec(n / 10);
        let s = dec_spec(n);
        assert(s =~= hd + seq![digit_char(n % 10)]);
        assert(s.take(s.len() - 1) =~= hd);
        assert(digits_val(s) == digits_val(hd) * 10 + digit_val(s[s.len() - 1]));
        assert(digit_val(digit_char(n % 10)) == n % 10);
        assert((n / 10) * 10 + n % 10 == n) by (nonlinear_arith);
        assert forall|k: int| 0 <= k < s.len() implies is_digit(#[trigger] s[k]) by {
            if k < s.len() - 1 {
                assert(s[k] == hd[k]);
            }
        }
    }
}

proof fn lemma_parse_number_emit(n: nat, rest: Seq<char>)
    requires
        rest.len() == 0 || !is_digit(rest[0]),
    ensures
        parse_number(dec_spec(n) + rest) == Some((n, rest)),
{
    lemma_dec_digits(n);
    let d = dec_spec(n);
    let s = d + rest;
    assert forall|k: int| 0 <= k < d.len() implies is_digit(s[k]) by {
        assert(s[k] == d[k]);
    }
    if d.len() < s.len() {
        assert(s[d.len() as int] == rest[0]);
    }
    lemma_digit_run_at(s, d.len() as int);
    assert(s.take(d.len() as int) =~= d);
    assert(s.skip(d.len() as int) =~= rest);
}

proof fn lemma_parse_bool_emit(b: bool, rest: Seq<char>)
    ensures
        parse_bool(bool_json(b) + rest) == Some((b, rest)),
{
    reveal_strlit("true");
    reveal_strlit("false");
    let s = bool_json(b) + rest;
    if b {
        assert(s.subrange(0, 4) =~= "true"@);
        assert(has_prefix(s, "true"@));
        assert(s.skip(4) =~= rest);
    } else {
        assert(s.subrange(0, 5) =~= "false"@);
        assert(has_prefix(s, "false"@));
        if has_prefix(s, "true"@) {
            assert(s.subrange(0, 4)[0] == 't');
            assert(s[0] == 'f');
        }
        assert(s.skip(5) =~= rest);
    }
}

/// The text that follows a closed array item: either the separator and the
/// next item, or the array's closing line.
pub open spec fn items_tail(exs: Seq<Seq<char>>) -> Seq<char>
    decreases exs.len(),
{
    if exs.len() == 0 {
        "\n  ]"@
    } else {
        ",\n    "@ + "\""@ + json_escape(exs[0]) + "\""@ + items_tail(exs.skip(1))
    }
}

proof fn lemma_items_decomp(ex: Seq<Seq<char>>)
    requires
        ex.len() >= 1,
    ensures
        exclude_items(ex) + "\n  ]"@ == "    "@ + "\""@ + json_escape(ex[0]) + "\""@
            + items_tail(ex.skip(1)),
    decreases ex.len(),
{
    reveal_strlit("    \"");
    reveal_strlit("    ");
    reveal_strlit("\"");
    reveal_strlit(",\n");
    reveal_strlit(",\n    ");
    reveal_strlit("\n  ]");
    if ex.len() == 1 {
        assert(ex.skip(1).len() == 0);
        assert(exclude_items(ex) == exclude_item(ex[0]));
        assert(exclude_item(ex[0]) + "\n  ]"@ =~= "    "@ + "\""@ + json_escape(ex[0]) + "\""@
            + "\n  ]"@);
    } else {
        lemma_items_decomp(ex.skip(1));
        assert(ex.skip(1)[0] == ex[1]);
        assert(ex.skip(1).skip(1) =~= ex.skip(2));
        assert(exclude_items(ex) == exclude_item(ex[0]) + ",\n"@ + exclude_items(ex.skip(1)));
        assert(exclude_items(ex) + "\n  ]"@ =~= exclude_item(ex[0]) + ",\n"@ + (exclude_items(
            ex.skip(1),
        ) + "\n  ]"@));
        assert(exclude_item(ex[0]) + ",\n"@ + ("    "@ + "\""@ + json_escape(ex[1]) + "\""@
            + items_tail(ex.skip(2))) =~= "    "@ + "\""@ + json_escape(ex[0]) + "\""@ + (",\n    "@
            + "\""@ + json_escape(ex[1]) + "\""@ + items_tail(ex.skip(2))));
        assert(items_tail(ex.skip(1)) == ",\n    "@ + "\""@ + json_escape(ex.skip(1)[0]) + "\""@
            + items_tail(ex.skip(1).skip(1)));
    }
}

proof fn lemma_parse_items_emit(ex: Seq<Seq<char>>, rest: Seq<char>)
    requires
        ex.len() >= 1,
    ensures
        parse_items("\""@ + json_escape(ex[0]) + "\""@ + items_tail(ex.skip(1)) + rest) == Some(
            (ex, rest),
        ),
    decreases ex.len(),
{
    reveal_strlit("\"");
    reveal_strlit(",\n    ");
    reveal_strlit("\n  ]");
    let s = "\""@ + json_escape(ex[0]) + "\""@ + items_tail(ex.skip(1)) + rest;
    let after = items_tail(ex.skip(1)) + rest;
    assert(s =~= "\""@ + json_escape(ex[0]) + "\""@ + after);
    lemma_parse_string_emit(ex[0], after);
    assert(parse_string(s) == Some((ex[0], after)));
    if ex.len() == 1 {
        assert(ex.skip(1).len() == 0);
        assert(after =~= "\n  ]"@ + rest);
        let ws = seq!['\n', ' ', ' '];
        assert(after =~= ws + (seq![']'] + rest));
        assert(forall|k: int| 0 <= k < ws.len() ==> is_space(ws[k]));
        lemma_skip_ws_concat(ws, seq![']'] + rest);
        let r2 = skip_ws(after);
        assert(r2 == skip_ws(seq![']'] + rest));
        assert(!is_space((seq![']'] + rest)[0]));
        assert(r2 =~= seq![']'] + rest);
        assert(r2[0] == ']');
        assert(r2.skip(1) =~= rest);
        assert(parse_items(s) == Some((seq![ex[0]], rest)));
        assert(seq![ex[0]] =~= ex);
    } else {
        let exs = ex.skip(1);
        assert(exs.len() >= 1);
        assert(after =~= ",\n    "@ + "\""@ + json_escape(exs[0]) + "\""@ + items_tail(exs.skip(1))
            + rest);
        let inner = "\""@ + json_escape(exs[0]) + "\""@ + items_tail(exs.skip(1)) + rest;
        assert(after =~= ",\n    "@ + inner);
        assert(after[0] == ',');
        assert(!is_space(','));
        assert(skip_ws(after) == after) by {
            assert(after.len() > 0 && !is_space(after[0]));
        }
        let r2 = after;
        let ws = seq!['\n', ' ', ' ', ' ', ' '];
        assert(r2.skip(1) =~= ws + inner);
        assert(forall|k: int| 0 <= k < ws.len() ==> is_space(ws[k]));
        lemma_skip_ws_concat(ws, inner);
        let r3 = skip_ws(r2.skip(1));
        assert(r3 == skip_ws(inner));
        assert(inner[0] == '"');
        assert(!is_space('"'));
        assert(r3 == inner);
        assert(r3.len() < s.len());
        lemma_parse_items_emit(exs, rest);
        assert(parse_items(inner) == Some((exs, rest)));
        assert(parse_items(s) == Some((seq![ex[0]] + exs, rest)));
        assert(seq![ex[0]] + exs =~= ex);
    }
}

proof fn lemma_parse_array_emit(ex: Seq<Seq<char>>, rest: Seq<char>)
    requires
        rest.len() == 0 || !is_space(rest[0]),
    ensures
        parse_array(exclude_json(ex) + rest) == Some((ex, rest)),
{
    reveal_strlit("[]");
    reveal_strlit("[\n");
    reveal_strlit("\"");
    reveal_strlit("    ");
    reveal_strlit("\n  ]");
    let s = exclude_json(ex) + rest;
    if ex.len() == 0 {
        assert(s[0] == '[');
        assert(s.skip(1) =~= seq![']'] + rest);
        assert(!is_space(']'));
        let t = skip_ws(s.skip(1));
        assert(t == s.skip(1));
        assert(t[0] == ']');
        assert(t.skip(1) =~= rest);
        assert(parse_array(s) == Some((Seq::<Seq<char>>::empty(), rest)));
        assert(Seq::<Seq<char>>::empty() =~= ex);
    } else {
        lemma_items_decomp(ex);
        let body = "    "@ + "\""@ + json_escape(ex[0]) + "\""@ + items_tail(ex.skip(1));
        let u1 = exclude_items(ex) + "\n  ]"@;
        assert(u1 == body);
        assert(s =~= "[\n"@ + u1 + rest);
        assert(s == "[\n"@ + body + rest);
        assert(s[0] == '[');
        let inner = "\""@ + json_escape(ex[0]) + "\""@ + items_tail(ex.skip(1)) + rest;
        let ws = seq!['\n', ' ', ' ', ' ', ' '];
        assert(s.skip(1) =~= ws + inner) by {
            assert(s == "[\n"@ + body + rest);
            assert forall|k: int| 0 <= k < s.len() - 1 implies s.skip(1)[k] == (ws + inner)[k] by {
                assert(s.skip(1)[k] == s[k + 1]);
            }
            assert(s.len() - 1 == ws.len() + inner.len());
        }
        assert(forall|k: int| 0 <= k < ws.len() ==> is_space(ws[k]));
        lemma_skip_ws_concat(ws, inner);
        let t = skip_ws(s.skip(1));
        assert(t == skip_ws(inner));
        assert(inner[0] == '"');
        assert(!is_space('"'));
        assert(t == inner);
        assert(t.len() > 0 && t[0] != ']');
        lemma_parse_items_emit(ex, rest);
        assert(parse_array(s) == parse_items(inner));
    }
}

/// The serializer and parser are inverse: parsing a serialized
/// configuration yields exactly the serialized values. Together with the
/// determinism of both functions, writing a configuration, reading it back
/// and writing again yields a byte-identical file.
#[verifier::rlimit(100)]
pub proof fn lemma_config_round_trip(n: nat, ex: Seq<Seq<char>>, en: bool)
    ensures
        parse_config_spec(config_json(n, ex, en)) == Some((n, ex, en)),
{
    reveal_strlit("[]");
    reveal_strlit("[\n");
    reveal_strlit("\n  ]");
    reveal_strlit("{\n  \"interval_seconds\": ");
    reveal_strlit(",\n  \"exclude\": ");
    reveal_strlit(",\n  \"enabled\": ");
    reveal_strlit("\n}");
    reveal_strlit("\"");
    reveal_strlit("interval_seconds");
    reveal_strlit("exclude");
    reveal_strlit("enabled");
    reveal_strlit("true");
    reveal_strlit("false");
    let text = config_json(n, ex, en);
    lemma_dec_digits(n);

    // The keys pass through the escaper unchanged.
    assert(forall|k: int|
        0 <= k < "interval_seconds"@.len() ==> !needs_escape(#[trigger] "interval_seconds"@[k]));
    lemma_json_escape_id("interval_seconds"@);
    assert(forall|k: int| 0 <= k < "exclude"@.len() ==> !needs_escape(#[trigger] "exclude"@[k]));
    lemma_json_escape_id("exclude"@);
    assert(forall|k: int| 0 <= k < "enabled"@.len() ==> !needs_escape(#[trigger] "enabled"@[k]));
    lemma_json_escape_id("enabled"@);

    // Remainders after each field.
    let rest_en = "\n}"@;
    let r4c = seq!['}'];
    let bool_start = bool_json(en) + rest_en;
    let en_field = "\""@ + json_escape("enabled"@) + "\""@ + (seq![':'] + (seq![' '] + bool_start));
    let rest_ex = ",\n  \"enabled\": "@ + bool_json(en) + rest_en;
    let arr_start = exclude_json(ex) + rest_ex;
    let ex_field = "\""@ + json_escape("exclude"@) + "\""@ + (seq![':'] + (seq![' '] + arr_start));
    let rest_n = ",\n  \"exclude\": "@ + exclude_json(ex) + rest_ex;
    let num_start = dec_spec(n) + rest_n;
    let n_field = "\""@ + json_escape("interval_seconds"@) + "\""@ + (seq![':'] + (seq![' ']
        + num_start));

    // Whole text decomposition.
    assert(text =~= seq!['{'] + (seq!['\n', ' ', ' '] + n_field));
    assert(text[0] == '{');
    assert(!is_space('{'));
    let s0 = skip_ws(text);
    assert(s0 == text) by {
        assert(text.len() > 0 && !is_space(text[0]));
    }
    assert(s0.skip(1) =~= seq!['\n', ' ', ' '] + n_field);
    lemma_skip_ws_concat(seq!['\n', ' ', ' '], n_field);
    let t = skip_ws(s0.skip(1));
    assert(n_field[0] == '"');
    assert(t == n_field) by {
        assert(skip_ws(n_field) == n_field);
    }

    // Field 1: interval_seconds.
    lemma_parse_string_emit("interval_seconds"@, seq![':'] + (seq![' '] + num_start));
    assert(parse_string(n_field) == Some((
        "interval_seconds"@,
        seq![':'] + (seq![' '] + num_start),
    )));
    let rn = seq![':'] + (seq![' '] + num_start);
    assert(rn[0] == ':');
    assert(!is_space(':'));
    assert(skip_ws(rn) == rn);
    assert(rn.skip(1) =~= seq![' '] + num_start);
    lemma_skip_ws_concat(seq![' '], num_start);
    assert(num_start[0] == dec_spec(n)[0]);
    assert(is_digit(num_start[0]));
    assert(!is_space(num_start[0]));
    let rn2 = skip_ws(rn.skip(1));
    assert(rn2 == num_start);
    assert(rest_n[0] == ',');
    lemma_parse_number_emit(n, rest_n);
    assert(parse_number(num_start) == Some((n, rest_n)));
    let st0 = (None::<nat>, None::<Seq<Seq<char>>>, None::<bool>);
    let st1 = (Some(n), None::<Seq<Seq<char>>>, None::<bool>);
    assert(parse_field(t, st0) == Some((st1, rest_n)));

    // Separator to field 2.
    assert(rest_n[0] == ',');
    assert(!is_space(','));
    assert(skip_ws(rest_n) == rest_n);
    assert(rest_n.skip(1) =~= seq!['\n', ' ', ' '] + ex_field);
    lemma_skip_ws_concat(seq!['\n', ' ', ' '], ex_field);
    assert(ex_field[0] == '"');
    let t2 = skip_ws(rest_n.skip(1));
    assert(t2 == ex_field) by {
        assert(skip_ws(ex_field) == ex_field);
    }
    assert(t2.len() < t.len());

    // Field 2: exclude.
    lemma_parse_string_emit("exclude"@, seq![':'] + (seq![' '] + arr_start));
    let rx = seq![':'] + (seq![' '] + arr_start);
    assert(parse_string(ex_field) == Some(("exclude"@, rx)));
    assert("exclude"@ != "interval_seconds"@) by {
        assert("exclude"@.len() != "interval_seconds"@.len());
    }
    assert(rx[0] == ':');
    assert(skip_ws(rx) == rx);
    assert(rx.skip(1) =~= seq![' '] + arr_start);
    lemma_skip_ws_concat(seq![' '], arr_start);
    assert(arr_start[0] == '[');
    assert(!is_space('['));
    let rx2 = skip_ws(rx.skip(1));
    assert(rx2 == arr_start);
    assert(rest_ex[0] == ',');
    lemma_parse_array_emit(ex, rest_ex);
    assert(parse_array(arr_start) == Some((ex, rest_ex)));
    let st2 = (Some(n), Some(ex), None::<bool>);
    assert(parse_field(t2, st1) == Some((st2, rest_ex)));

    // Separator to field 3.
    assert(skip_ws(rest_ex) == rest_ex);
    assert(rest_ex.skip(1) =~= seq!['\n', ' ', ' '] + en_field);
    lemma_skip_ws_concat(seq!['\n', ' ', ' '], en_field);
    assert(en_field[0] == '"');
    let t3 = skip_ws(rest_ex.skip(1));
    assert(t3 == en_field) by {
        assert(skip_ws(en_field) == en_field);
    }
    assert(t3.len() < t2.len());

    // Field 3: enabled.
    lemma_parse_string_emit("enabled"@, seq![':'] + (seq![' '] + bool_start));
    let re = seq![':'] + (seq![' '] + bool_start);
    assert(parse_string(en_field) == Some(("enabled"@, re)));
    assert("enabled"@ != "interval_seconds"@) by {
        assert("enabled"@.len() != "interval_seconds"@.len());
    }
    assert("enabled"@ != "exclude"@) by {
        assert("enabled"@[0] == 'n' || "enabled"@[0] == 'e');
        assert("enabled"@[1] == 'n');
        assert("exclude"@[1] == 'x');
    }
    assert(re[0] == ':');
    assert(skip_ws(re) == re);
    assert(re.skip(1) =~= seq![' '] + bool_start);
    lemma_skip_ws_concat(seq![' '], bool_start);
    assert(bool_start[0] == bool_json(en)[0]);
    assert(!is_space(bool_start[0]));
    let re2 = skip_ws(re.skip(1));
    assert(re2 == bool_start);
    lemma_parse_bool_emit(en, rest_en);
    assert(parse_bool(bool_start) == Some((en, rest_en)));
    let st3 = (Some(n), Some(ex), Some(en));
    assert(parse_field(t3, st2) == Some((st3, rest_en)));

    // Closing brace.
    assert(rest_en =~= seq!['\n'] + r4c);
    lemma_skip_ws_concat(seq!['\n'], r4c);
    let r4 = skip_ws(rest_en);
    assert(r4 == r4c) by {
        assert(!is_space('}'));
        assert(skip_ws(r4c) == r4c);
    }
    assert(r4[0] == '}');
    assert(r4.skip(1) =~= Seq::<char>::empty());
    assert(parse_fields(t3, st2) == Some(((n, ex, en), Seq::<char>::empty())));
    assert(parse_fields(t2, st1) == Some(((n, ex, en), Seq::<char>::empty())));
    assert(parse_fields(t, st0) == Some(((n, ex, en), Seq::<char>::empty())));
    assert(skip_ws(Seq::<char>::empty()).len() == 0);
}

} // verus!
