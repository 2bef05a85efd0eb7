//! Reading a configuration from the text of a YAML document.
//!
//! The document is parsed into a `Yaml` tree; the schema is then read from the
//! tree: `general` (optional: `verbose`, default `false`, and `default_tags`,
//! default empty) and `files` (optional: a mapping from key to entry, each entry
//! with a `type` of `link`, which needs a text `dest`, or `exec`, and optional
//! `tags`). Fields the schema does not know are ignored.
use vstd::prelude::*;
use vstd::string::*;

use crate::order::{entry_view, holds, insert_sorted, keys_sorted};
use crate::tags::views;
use crate::{Config, Entry, FileType, GeneralSettings};

verus! {

#[verifier::external_type_specification]
#[verifier::external_body]
pub struct ExYamlValue(serde_yaml::Value);

/// A parsed YAML document.
#[derive(Debug)]
pub enum Yaml {
    Null,
    Bool(bool),
    /// A number, as serde_yaml writes it.
    Number(String),
    Text(String),
    List(Vec<Yaml>),
    /// Key and value pairs, in the document's order.
    Mapping(Vec<(Yaml, Yaml)>),
}

/// Why a configuration could not be read.
#[derive(Clone, Debug, PartialEq, Eq)]
pub enum ConfigError {
    /// The text is not YAML; the parser's message.
    Syntax(String),
    /// The document does not fit the schema.
    Schema,
}

/// The document that a text parses to, if it parses.
pub uninterp spec fn yaml_document(text: Seq<char>) -> Option<Yaml>;

/// Relies on serde_yaml::from_str into a serde_yaml::Value: whether the text
/// parses, and to what, depends on the text alone. On failure, serde_yaml's
/// message. The parser's own consistency checks (its event stream is balanced,
/// its aliases resolve) are taken to hold for every text.
#[verifier::external_body]
fn parse_document(text: &str) -> (r: Result<Yaml, String>)
    ensures
        r is Ok <==> yaml_document(text@) is Some,
        r is Ok ==> yaml_document(text@) == Some(r->Ok_0),
{
    serde_yaml::from_str::<serde_yaml::Value>(text).map(yaml_from_value).map_err(|e| e.to_string())
}

/// Moves each variant of serde_yaml::Value into the matching one of `Yaml`.
#[verifier::external_body]
fn yaml_from_value(v: serde_yaml::Value) -> Yaml {
    match v {
        serde_yaml::Value::Null => Yaml::Null,
        serde_yaml::Value::Bool(b) => Yaml::Bool(b),
        serde_yaml::Value::Number(n) => Yaml::Number(n.to_string()),
        serde_yaml::Value::String(s) => Yaml::Text(s),
        serde_yaml::Value::Sequence(s) => Yaml::List(s.into_iter().map(yaml_from_value).collect()),
        serde_yaml::Value::Mapping(m) => Yaml::Mapping(
            m.into_iter().map(|(k, v)| (yaml_from_value(k), yaml_from_value(v))).collect(),
        ),
    }
}

/// The text of `v`, if it is a scalar other than null: where text is
/// expected, a number or a boolean is read as its text.
pub open spec fn text_of(v: Option<Yaml>) -> Option<Seq<char>> {
    match v {
        Some(Yaml::Text(s)) => Some(s@),
        Some(Yaml::Number(s)) => Some(s@),
        Some(Yaml::Bool(b)) => Some(if b { "true"@ } else { "false"@ }),
        _ => None,
    }
}

/// The value of the first pair of `m` whose key is the text `field`.
pub open spec fn lookup(m: Seq<(Yaml, Yaml)>, field: Seq<char>) -> Option<Yaml>
    decreases m.len(),
{
    if m.len() == 0 {
        None
    } else if text_of(Some(m[0].0)) == Some(field) {
        Some(m[0].1)
    } else {
        lookup(m.drop_first(), field)
    }
}

/// A list of tags: absent is empty; otherwise a list of texts.
pub open spec fn tag_list(v: Option<Yaml>) -> Option<Seq<Seq<char>>> {
    match v {
        None => Some(Seq::empty()),
        Some(Yaml::List(items)) => if forall|i: int|
            0 <= i < items@.len() ==> #[trigger] text_of(Some(items@[i])) is Some {
            Some(items@.map_values(|y: Yaml| text_of(Some(y))->0))
        } else {
            None
        },
        _ => None,
    }
}

/// A flag: absent is `false`; otherwise a boolean.
pub open spec fn flag(v: Option<Yaml>) -> Option<bool> {
    match v {
        None => Some(false),
        Some(Yaml::Bool(b)) => Some(b),
        _ => None,
    }
}

/// An entry: the link's destination (none for a command) and its tags.
pub open spec fn entry_of(v: Yaml) -> Option<(Option<Seq<char>>, Seq<Seq<char>>)> {
    match v {
        Yaml::Mapping(m) => {
            let kind = text_of(lookup(m@, "type"@));
            let dest = text_of(lookup(m@, "dest"@));
            let tags = tag_list(lookup(m@, "tags"@));
            if tags is None {
                None
            } else if kind == Some("exec"@) {
                Some((None, tags->0))
            } else if kind == Some("link"@) && dest is Some {
                Some((dest, tags->0))
            } else {
                None
            }
        },
        _ => None,
    }
}

/// The general settings: absent gives the defaults.
pub open spec fn general_of(v: Option<Yaml>) -> Option<(bool, Seq<Seq<char>>)> {
    match v {
        None => Some((false, Seq::empty())),
        Some(Yaml::Mapping(m)) => {
            let verbose = flag(lookup(m@, "verbose"@));
            let tags = tag_list(lookup(m@, "default_tags"@));
            if verbose is Some && tags is Some {
                Some((verbose->0, tags->0))
            } else {
                None
            }
        },
        _ => None,
    }
}

/// The entries of the pairs `m`, by key; a later pair replaces an earlier one.
pub open spec fn file_table(m: Seq<(Yaml, Yaml)>) -> Option<
    Map<Seq<char>, (Option<Seq<char>>, Seq<Seq<char>>)>,
>
    decreases m.len(),
{
    if m.len() == 0 {
        Some(Map::empty())
    } else {
        let rest = file_table(m.drop_last());
        let key = text_of(Some(m.last().0));
        let entry = entry_of(m.last().1);
        if rest is Some && key is Some && entry is Some {
            Some(rest->0.insert(key->0, entry->0))
        } else {
            None
        }
    }
}

/// The `files` section: absent is empty.
pub open spec fn files_of(v: Option<Yaml>) -> Option<
    Map<Seq<char>, (Option<Seq<char>>, Seq<Seq<char>>)>,
> {
    match v {
        None => Some(Map::empty()),
        Some(Yaml::Mapping(m)) => file_table(m@),
        _ => None,
    }
}

/// What a document says, if it fits the schema: the general settings and the
/// entries by key.
pub open spec fn config_of(doc: Yaml) -> Option<
    ((bool, Seq<Seq<char>>), Map<Seq<char>, (Option<Seq<char>>, Seq<Seq<char>>)>),
> {
    match doc {
        Yaml::Mapping(m) => {
            let general = general_of(lookup(m@, "general"@));
            let files = files_of(lookup(m@, "files"@));
            if general is Some && files is Some {
                Some((general->0, files->0))
            } else {
                None
            }
        },
        _ => None,
    }
}

/// Every prefix of pairs that fit the schema fits it.
proof fn lemma_table_prefix(m: Seq<(Yaml, Yaml)>, j: int)
    requires
        0 <= j <= m.len(),
        file_table(m) is Some,
    ensures
        file_table(m.subrange(0, j)) is Some,
    decreases m.len() - j,
{
    if j < m.len() {
        lemma_table_prefix(m, j + 1);
        assert(m.subrange(0, j + 1).drop_last() =~= m.subrange(0, j));
    } else {
        assert(m.subrange(0, j) =~= m);
    }
}

/// A document without a `general` section reads with `verbose` off and no
/// default tags.
pub proof fn lemma_general_defaults(doc: Yaml)
    requires
        doc is Mapping,
        lookup(doc->Mapping_0@, "general"@) is None,
        files_of(lookup(doc->Mapping_0@, "files"@)) is Some,
    ensures
        config_of(doc) is Some,
        config_of(doc) matches Some((general, _)) ==> general == (false, Seq::<Seq<char>>::empty()),
{
}

/// An entry without `tags` reads with no tags.
pub proof fn lemma_entry_tags_default(v: Yaml)
    requires
        v is Mapping,
        lookup(v->Mapping_0@, "tags"@) is None,
    ensures
        entry_of(v) matches Some((_, tags)) ==> tags == Seq::<Seq<char>>::empty(),
        text_of(lookup(v->Mapping_0@, "type"@)) == Some("exec"@) ==> entry_of(v) == Some(
            (None::<Seq<char>>, Seq::<Seq<char>>::empty()),
        ),
{
}

/// A document with a `link` entry that has no `dest` does not fit the schema.
pub proof fn lemma_link_needs_dest(doc: Yaml, files: Seq<(Yaml, Yaml)>, i: int)
    requires
        doc is Mapping,
        lookup(doc->Mapping_0@, "files"@) is Some,
        lookup(doc->Mapping_0@, "files"@)->0 is Mapping,
        lookup(doc->Mapping_0@, "files"@)->0->Mapping_0@ == files,
        0 <= i < files.len(),
        files[i].1 is Mapping,
        text_of(lookup(files[i].1->Mapping_0@, "type"@)) == Some("link"@),
        lookup(files[i].1->Mapping_0@, "dest"@) is None,
    ensures
        config_of(doc) is None,
{
    reveal_strlit("link");
    reveal_strlit("exec");
    assert("link"@[0] != "exec"@[0]);
    assert(entry_of(files[i].1) is None);
    if file_table(files) is Some {
        lemma_table_prefix(files, i + 1);
        assert(files.subrange(0, i + 1).last() == files[i]);
    }
}

/// `c` holds what `model` says, its entries ordered by key.
pub open spec fn config_matches(
    c: Config,
    model: ((bool, Seq<Seq<char>>), Map<Seq<char>, (Option<Seq<char>>, Seq<Seq<char>>)>),
) -> bool {
    let ((verbose, default_tags), table) = model;
    &&& c.general.verbose == verbose
    &&& views(c.general.default_tags@) == default_tags
    &&& c.wf()
    &&& holds(c.files@, table)
}

/// Whether two texts are equal.
fn text_eq(a: &str, b: &str) -> (r: bool)
    ensures
        r == (a@ == b@),
{
    let n = a.unicode_len();
    if n != b.unicode_len() {
        return false;
    }
    let mut i: usize = 0;
    while i < n
        invariant
            i <= n,
            n == a@.len(),
            n == b@.len(),
            forall|k: int| 0 <= k < i ==> a@[k] == b@[k],
        decreases n - i,
    {
        if a.get_char(i) != b.get_char(i) {
            return false;
        }
        i += 1;
    }
    assert(a@ =~= b@);
    true
}

/// The text of a scalar other than null.
fn scalar_text(y: &Yaml) -> (r: Option<String>)
    ensures
        r is None <==> text_of(Some(*y)) is None,
        r is Some ==> text_of(Some(*y)) == Some(r->0@),
{
    match y {
        Yaml::Text(s) => Some(s.clone()),
        Yaml::Number(s) => Some(s.clone()),
        Yaml::Bool(b) => Some(String::from_str(if *b { "true" } else { "false" })),
        _ => None,
    }
}

/// The index of the first pair of `m` whose key is the text `field`.
fn find_field(m: &Vec<(Yaml, Yaml)>, field: &str) -> (r: Option<usize>)
    ensures
        r is None ==> lookup(m@, field@) is None,
        r is Some ==> r->0 < m@.len() && lookup(m@, field@) == Some(m@[r->0 as int].1),
{
    let mut i: usize = 0;
    assert(m@.skip(0) =~= m@);
    while i < m.len()
        invariant
            i <= m@.len(),
            lookup(m@, field@) == lookup(m@.skip(i as int), field@),
        decreases m@.len() - i,
    {
        let hit = match scalar_text(&m[i].0) {
            Some(s) => text_eq(s.as_str(), field),
            None => false,
        };
        if hit {
            return Some(i);
        }
        assert(m@.skip(i as int).drop_first() =~= m@.skip(i + 1));
        i += 1;
    }
    None
}

/// The value of `field` in `m`, if it is there.
fn field<'a>(m: &'a Vec<(Yaml, Yaml)>, name: &str) -> (r: Option<&'a Yaml>)
    ensures
        r is None ==> lookup(m@, name@) is None,
        r is Some ==> lookup(m@, name@) == Some(*r->0),
{
    match find_field(m, name) {
        Some(i) => Some(&m[i].1),
        None => None,
    }
}

/// The text of `v`.
fn read_text(v: Option<&Yaml>) -> (r: Option<String>)
    ensures
        r is None <==> text_of(opt_value(v)) is None,
        r is Some ==> text_of(opt_value(v)) == Some(r->0@),
{
    match v {
        Some(y) => scalar_text(y),
        None => None,
    }
}

/// The value behind an optional reference.
pub open spec fn opt_value(v: Option<&Yaml>) -> Option<Yaml> {
    match v {
        Some(y) => Some(*y),
        None => None,
    }
}

/// A list of tags.
fn read_tags(v: Option<&Yaml>) -> (r: Option<Vec<String>>)
    ensures
        r is None <==> tag_list(opt_value(v)) is None,
        r is Some ==> tag_list(opt_value(v)) == Some(views(r->0@)),
{
    match v {
        None => Some(Vec::new()),
        Some(Yaml::List(items)) => {
            assert(opt_value(v) == Some(Yaml::List(*items)));
            let mut out: Vec<String> = Vec::new();
            let mut i: usize = 0;
            while i < items.len()
                invariant
                    opt_value(v) == Some(Yaml::List(*items)),
                    i <= items@.len(),
                    out@.len() == i,
                    forall|k: int| 0 <= k < i ==> #[trigger] text_of(Some(items@[k])) is Some,
                    forall|k: int| 0 <= k < i ==> out@[k]@ == #[trigger] text_of(Some(items@[k]))->0,
                decreases items@.len() - i,
            {
                match scalar_text(&items[i]) {
                    Some(s) => out.push(s),
                    None => {
                        assert(!(forall|k: int|
                            0 <= k < items@.len() ==> #[trigger] text_of(Some(items@[k])) is Some));
                        return None;
                    },
                }
                i += 1;
            }
            assert(views(out@) =~= items@.map_values(|y: Yaml| text_of(Some(y))->0));
            Some(out)
        },
        _ => None,
    }
}

/// A flag.
fn read_flag(v: Option<&Yaml>) -> (r: Option<bool>)
    ensures
        r == flag(opt_value(v)),
{
    match v {
        None => Some(false),
        Some(Yaml::Bool(b)) => Some(*b),
        _ => None,
    }
}

/// Reads one entry.
pub fn read_entry(v: &Yaml) -> (r: Option<Entry>)
    ensures
        r is None <==> entry_of(*v) is None,
        r is Some ==> entry_of(*v) == Some(entry_view(r->0)),
{
    match v {
        Yaml::Mapping(m) => {
            let tags = match read_tags(field(m, "tags")) {
                Some(t) => t,
                None => {
                    return None;
                },
            };
            let kind = read_text(field(m, "type"));
            let dest = read_text(field(m, "dest"));
            match kind {
                Some(k) => {
                    if text_eq(k.as_str(), "exec") {
                        Some(Entry { ft: FileType::Exec, tags })
                    } else if text_eq(k.as_str(), "link") {
                        match dest {
                            Some(d) => Some(Entry { ft: FileType::Link { dest: d }, tags }),
                            None => None,
                        }
                    } else {
                        None
                    }
                },
                None => None,
            }
        },
        _ => None,
    }
}

/// Reads the general settings.
pub fn read_general(v: Option<&Yaml>) -> (r: Option<GeneralSettings>)
    ensures
        r is None <==> general_of(opt_value(v)) is None,
        r is Some ==> general_of(opt_value(v)) == Some(
            (r->0.verbose, views(r->0.default_tags@)),
        ),
{
    match v {
        None => {
            let g = GeneralSettings::default();
            assert(views(g.default_tags@) =~= Seq::empty());
            Some(g)
        },
        Some(Yaml::Mapping(m)) => {
            let verbose = read_flag(field(m, "verbose"));
            let default_tags = read_tags(field(m, "default_tags"));
            match (verbose, default_tags) {
                (Some(verbose), Some(default_tags)) => Some(GeneralSettings { verbose, default_tags }),
                _ => None,
            }
        },
        _ => None,
    }
}

/// Reads the `files` section, ordered by key.
pub fn read_files(v: Option<&Yaml>) -> (r: Option<Vec<(String, Entry)>>)
    ensures
        r is None <==> files_of(opt_value(v)) is None,
        r is Some ==> keys_sorted(r->0@) && holds(r->0@, files_of(opt_value(v))->0),
{
    match v {
        None => Some(Vec::new()),
        Some(Yaml::Mapping(m)) => {
            assert(opt_value(v) == Some(Yaml::Mapping(*m)));
            let mut files: Vec<(String, Entry)> = Vec::new();
            let mut i: usize = 0;
            while i < m.len()
                invariant
                    opt_value(v) == Some(Yaml::Mapping(*m)),
                    i <= m@.len(),
                    keys_sorted(files@),
                    file_table(m@.subrange(0, i as int)) is Some,
                    holds(files@, file_table(m@.subrange(0, i as int))->0),
                decreases m@.len() - i,
            {
                assert(m@.subrange(0, i + 1).drop_last() =~= m@.subrange(0, i as int));
                assert(m@.subrange(0, i + 1).last() == m@[i as int]);
                let key = match scalar_text(&m[i].0) {
                    Some(s) => s,
                    None => {
                        proof {
                            if file_table(m@) is Some {
                                lemma_table_prefix(m@, i + 1);
                            }
                        }
                        return None;
                    },
                };
                let entry = match read_entry(&m[i].1) {
                    Some(e) => e,
                    None => {
                        proof {
                            if file_table(m@) is Some {
                                lemma_table_prefix(m@, i + 1);
                            }
                        }
                        return None;
                    },
                };
                insert_sorted(&mut files, key, entry);
                i += 1;
            }
            assert(m@.subrange(0, i as int) =~= m@);
            Some(files)
        },
        _ => None,
    }
}

/// Reads a configuration from a parsed document.
pub fn config_from_yaml(doc: &Yaml) -> (r: Result<Config, ConfigError>)
    ensures
        r is Ok ==> r->Ok_0.wf(),
        r is Ok <==> config_of(*doc) is Some,
        r is Ok ==> config_matches(r->Ok_0, config_of(*doc)->0),
        r is Err ==> r->Err_0 is Schema,
{
    match doc {
        Yaml::Mapping(m) => {
            let general = read_general(field(m, "general"));
            let files = read_files(field(m, "files"));
            match (general, files) {
                (Some(general), Some(files)) => Ok(Config { general, files }),
                _ => Err(ConfigError::Schema),
            }
        },
        _ => Err(ConfigError::Schema),
    }
}

/// Reads a configuration from the text of a YAML document.
pub fn parse_config(text: &str) -> (r: Result<Config, ConfigError>)
    ensures
        r is Ok ==> r->Ok_0.wf(),
        (r is Err && r->Err_0 is Syntax) <==> yaml_document(text@) is None,
        yaml_document(text@) is Some ==> (r is Ok <==> config_of(yaml_document(text@)->0) is Some),
        r is Ok ==> config_matches(r->Ok_0, config_of(yaml_document(text@)->0)->0),
{
    match parse_document(text) {
        Ok(doc) => config_from_yaml(&doc),
        Err(m) => Err(ConfigError::Syntax(m)),
    }
}

} // verus!
