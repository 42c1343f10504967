//! Markdown skill files: splitting a YAML frontmatter block off a
//! document, deriving a display name, and the record types the scanner
//! produces. The YAML and JSON value handling itself is done by outside
//! crates behind trusted wrappers; everything around those calls —
//! where the block begins and ends, what the body is, which name wins —
//! is verified.
use vstd::prelude::*;

use crate::text::{
    find_sub, from_chars, has_prefix, subvec, to_chars, trim_spec, trim_start_chars,
    trim_start_spec,
};
use crate::log_reader::{first_occ, lemma_first_occ_at, lemma_first_occ_none};

verus! {

#[verifier::external_type_specification]
#[verifier::external_body]
pub struct ExJsonValue(serde_json::Value);

#[verifier::external_type_specification]
#[verifier::external_body]
pub struct ExYamlValue(serde_yaml::Value);

/// Relies on `serde_yaml::from_str`: parse a YAML document, `None` when it
/// is malformed.
#[verifier::external_body]
pub(crate) fn yaml_from_str(s: &str) -> Option<serde_yaml::Value> {
    serde_yaml::from_str::<serde_yaml::Value>(s).ok()
}

/// Relies on `serde_json::to_value`: re-express a YAML value as JSON,
/// `Value::Null` when it cannot be represented.
#[verifier::external_body]
pub(crate) fn yaml_to_json(y: &serde_yaml::Value) -> serde_json::Value {
    serde_json::to_value(y).unwrap_or(serde_json::Value::Null)
}

/// Relies on `serde_json::Value::get`: the member named `key` of an
/// object, `None` otherwise.
#[verifier::external_body]
pub(crate) fn value_get<'a>(v: &'a serde_json::Value, key: &str) -> Option<&'a serde_json::Value> {
    v.get(key)
}

/// Relies on `serde_json::Value::as_str`: the owned text of a string
/// value, `None` for any other kind.
#[verifier::external_body]
pub(crate) fn value_as_str(v: &serde_json::Value) -> Option<String> {
    v.as_str().map(|s| s.to_string())
}

/// Relies on `serde_json::Value::as_bool`: the boolean of a boolean
/// value, `None` for any other kind.
#[verifier::external_body]
pub(crate) fn value_as_bool(v: &serde_json::Value) -> Option<bool> {
    v.as_bool()
}

/// Relies on `serde_json::Value::as_array`: the elements of an array
/// value, `None` for any other kind.
#[verifier::external_body]
pub(crate) fn value_as_array(v: &serde_json::Value) -> Option<&Vec<serde_json::Value>> {
    v.as_array()
}

/// One skill file with its parsed frontmatter and body.
#[derive(Debug, Clone)]
pub struct SkillEntry {
    /// The file's path as scanned.
    pub path: String,
    /// The display name: the frontmatter's `name` or the file stem.
    pub name: String,
    /// The parsed frontmatter, when the file had a well-formed block.
    pub frontmatter: Option<serde_json::Value>,
    /// The document body after the frontmatter block.
    pub body: String,
}

/// A whole folder scanned with bodies.
#[derive(Debug, Clone)]
pub struct ScanResult {
    /// The skill files found.
    pub skills: Vec<SkillEntry>,
    /// Files passed over: not markdown, or without frontmatter.
    pub skipped: usize,
    /// Files that could not be read.
    pub errors: usize,
}

/// One skill file, frontmatter only.
#[derive(Debug, Clone)]
pub struct SkillIndex {
    /// The file's path as scanned.
    pub path: String,
    /// The display name: the frontmatter's `name` or the file stem.
    pub name: String,
    /// The parsed frontmatter, when the file had a well-formed block.
    pub frontmatter: Option<serde_json::Value>,
}

/// A whole folder scanned without bodies.
#[derive(Debug, Clone)]
pub struct IndexResult {
    /// The skill files found.
    pub skills: Vec<SkillIndex>,
    /// Files passed over: not markdown, or without frontmatter.
    pub skipped: usize,
    /// Files that could not be read.
    pub errors: usize,
}

/// `s` with its leading newlines removed.
pub open spec fn trim_leading_nl(s: Seq<char>) -> Seq<char>
    decreases s.len(),
{
    if s.len() > 0 && s[0] == '\n' {
        trim_leading_nl(s.skip(1))
    } else {
        s
    }
}

proof fn lemma_trim_nl_at(s: Seq<char>, t: int)
    requires
        0 <= t <= s.len(),
        forall|k: int| 0 <= k < t ==> s[k] == '\n',
        t < s.len() ==> s[t] != '\n',
    ensures
        trim_leading_nl(s) == s.skip(t),
    decreases t,
{
    if t == 0 {
        assert(s.skip(0) =~= s);
    } else {
        lemma_trim_nl_at(s.skip(1), t - 1);
        assert(s.skip(1).skip(t - 1) =~= s.skip(t));
    }
}

/// Where a document's frontmatter block lies: after a leading `---`, up
/// to the first `\n---`; the body is what follows, with leading
/// newlines dropped. `None` when the document has no such block.
pub open spec fn fm_split(content: Seq<char>) -> Option<(Seq<char>, Seq<char>)> {
    let t = trim_start_spec(content);
    if !has_prefix(t, "---"@) {
        None
    } else {
        let after = t.skip(3);
        let i = first_occ(after, "\n---"@);
        if 0 <= i && i + 4 <= after.len() {
            Some((after.take(i), trim_leading_nl(after.skip(i + 4))))
        } else {
            None
        }
    }
}

/// Split the frontmatter block off a document and parse it: the first
/// component is the parsed block when the document has one and it is
/// well-formed YAML, and the second is then the body after the block;
/// otherwise the document comes back whole.
#[verifier::loop_isolation(false)]
pub fn extract_frontmatter(content: &str) -> (r: (Option<serde_json::Value>, String))
    ensures
        match fm_split(content@) {
            None => r.0 is None && r.1@ == content@,
            Some((_y, b)) => (r.0 is Some ==> r.1@ == b) && (r.0 is None ==> r.1@ == content@),
        },
{
    proof {
        reveal_strlit("---");
        reveal_strlit("\n---");
    }
    let v = to_chars(content);
    let trimmed = trim_start_chars(&v);
    let dashes = to_chars("---");
    if !crate::text::starts_with(&trimmed, &dashes) {
        return (None, from_chars(&v));
    }
    let after = subvec(&trimmed, 3, trimmed.len());
    proof {
        assert(after@ =~= trim_start_spec(content@).skip(3));
    }
    let nl_dashes = to_chars("\n---");
    match find_sub(&after, &nl_dashes) {
        Some(i) => {
            proof {
                lemma_first_occ_at(after@, "\n---"@, i as int);
            }
            let yaml_part = subvec(&after, 0, i);
            proof {
                assert(yaml_part@ =~= after@.take(i as int));
            }
            let rest = subvec(&after, i + 4, after.len());
            proof {
                assert(rest@ =~= after@.skip(i + 4));
            }
            // Drop leading newlines from the body.
            let mut lo: usize = 0;
            while lo < rest.len() && rest[lo] == '\n'
                invariant
                    lo <= rest@.len(),
                    forall|k: int| 0 <= k < lo ==> rest@[k] == '\n',
                decreases rest@.len() - lo,
            {
                lo = lo + 1;
            }
            proof {
                lemma_trim_nl_at(rest@, lo as int);
            }
            let body = subvec(&rest, lo, rest.len());
            proof {
                assert(body@ =~= rest@.skip(lo as int));
            }
            let yaml_str = from_chars(&yaml_part);
            match yaml_from_str(yaml_str.as_str()) {
                Some(y) => {
                    let j = yaml_to_json(&y);
                    (Some(j), from_chars(&body))
                },
                None => (None, from_chars(&v)),
            }
        },
        None => {
            proof {
                lemma_first_occ_none(after@, "\n---"@);
            }
            (None, from_chars(&v))
        },
    }
}

/// Process one markdown file's content into a skill entry: files whose
/// frontmatter block is absent or malformed are passed over (the
/// scanner's resilience rule); for the rest the entry carries the parsed
/// block, the derived name and the body after the block.
pub fn scan_markdown_file(path: String, file_stem: &str, content: &str) -> (r: Option<SkillEntry>)
    ensures
        match r {
            Some(e) => e.path == path && e.frontmatter is Some && (match fm_split(content@) {
                Some((_y, b)) => e.body@ == b,
                None => false,
            }),
            None => true,
        },
{
    let (frontmatter, body) = extract_frontmatter(content);
    match frontmatter {
        Some(fm) => {
            let fm_opt = Some(fm);
            let name = derive_name(&fm_opt, file_stem);
            Some(SkillEntry { path, name, frontmatter: fm_opt, body })
        },
        None => None,
    }
}

/// The name a skill gets from an extracted `name` field: the field's
/// trimmed text when it has any, otherwise the file stem.
pub open spec fn derive_name_spec(name_field: Option<Seq<char>>, stem: Seq<char>) -> Seq<char> {
    match name_field {
        Some(s) => if trim_spec(s).len() > 0 {
            trim_spec(s)
        } else {
            stem
        },
        None => stem,
    }
}

/// Derive the display name from an already-extracted `name` field.
pub fn derive_name_from(name_field: Option<&String>, file_stem: &str) -> (r: String)
    ensures
        r@ == derive_name_spec(
            match name_field {
                Some(s) => Some(s@),
                None => None,
            },
            file_stem@,
        ),
{
    match name_field {
        Some(s) => {
            let v = to_chars(s.as_str());
            let t = crate::text::trim_chars(&v);
            if t.len() > 0 {
                from_chars(&t)
            } else {
                let stem = to_chars(file_stem);
                from_chars(&stem)
            }
        },
        None => {
            let stem = to_chars(file_stem);
            from_chars(&stem)
        },
    }
}

/// The display name of a skill: the frontmatter's nonempty trimmed
/// `name`, or the file stem. What the frontmatter holds only the JSON
/// crate can see, so the result is pinned relative to that field.
pub fn derive_name(frontmatter: &Option<serde_json::Value>, file_stem: &str) -> (r: String)
    ensures
        frontmatter is None ==> r@ == file_stem@,
        exists|nf: Option<Seq<char>>| r@ == derive_name_spec(nf, file_stem@),
{
    match frontmatter {
        Some(fm) => {
            let name_field = match value_get(fm, "name") {
                Some(v) => value_as_str(v),
                None => None,
            };
            let r = derive_name_from(name_field.as_ref(), file_stem);
            proof {
                let nf = match name_field {
                    Some(s) => Some(s@),
                    None => None,
                };
                assert(r@ == derive_name_spec(nf, file_stem@));
            }
            r
        },
        None => {
            let stem = to_chars(file_stem);
            let r = from_chars(&stem);
            proof {
                assert(r@ == derive_name_spec(None, file_stem@));
            }
            r
        },
    }
}

} // verus!
