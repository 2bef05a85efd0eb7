//! Turning a configured path into an absolute, normalized one: variables and a
//! leading `~` are expanded, then the path is made absolute against the
//! working directory without touching the file system.
use vstd::prelude::*;
use vstd::string::*;

use path_absolutize::Absolutize;

use crate::Error;

verus! {

/// `s` starts with the home-directory shorthand.
pub open spec fn starts_with_tilde(s: Seq<char>) -> bool {
    s.len() > 0 && s[0] == '~'
}

/// `s` refers to a variable somewhere.
pub open spec fn has_dollar(s: Seq<char>) -> bool {
    exists|i: int| 0 <= i < s.len() && s[i] == '$'
}

/// Expansion may change `s`.
pub open spec fn needs_expansion(s: Seq<char>) -> bool {
    starts_with_tilde(s) || has_dollar(s)
}

/// The segment of `s` that starts at `i` is `.` or `..`.
pub open spec fn dot_segment_at(s: Seq<char>, i: int) -> bool {
    (i < s.len() && s[i] == '.' && (i + 1 == s.len() || s[i + 1] == '/')) || (i + 1 < s.len()
        && s[i] == '.' && s[i + 1] == '.' && (i + 2 == s.len() || s[i + 2] == '/'))
}

/// `s` is an absolute path in normal form: it starts at the root, has no empty,
/// `.` or `..` segment, and no trailing separator unless it is the root itself.
pub open spec fn is_normal_absolute(s: Seq<char>) -> bool {
    &&& s.len() > 0
    &&& s[0] == '/'
    &&& (s.len() == 1 || s[s.len() - 1] != '/')
    &&& forall|i: int| 0 <= i < s.len() - 1 && #[trigger] s[i] == '/' ==> s[i + 1] != '/'
    &&& forall|i: int| 0 <= i < s.len() && #[trigger] s[i] == '/' ==> !dot_segment_at(s, i + 1)
}

/// Whether a character is alphabetic or numeric in Unicode's sense.
pub uninterp spec fn unicode_alphanumeric(c: char) -> bool;

/// Relies on std's `char::is_alphanumeric`.
#[verifier::external_body]
fn is_alphanumeric(c: char) -> (r: bool)
    ensures
        r == unicode_alphanumeric(c),
{
    c.is_alphanumeric()
}

/// A character that may stand in a variable name.
pub open spec fn var_char(c: char) -> bool {
    unicode_alphanumeric(c) || c == '_'
}

/// At `i`, `s` refers to a variable whose name starts with a character outside
/// ASCII. The expander slices such a name at a byte offset inside that
/// character, so these references are refused before it sees them.
pub open spec fn wide_var_at(s: Seq<char>, i: int) -> bool {
    &&& 0 <= i
    &&& i + 1 < s.len()
    &&& s[i] == '$'
    &&& s[i + 1] > '\x7f'
    &&& unicode_alphanumeric(s[i + 1])
}

/// `s` refers to a variable with a name that starts outside ASCII.
pub open spec fn has_wide_var(s: Seq<char>) -> bool {
    exists|i: int| wide_var_at(s, i)
}

/// The variable name that starts at `j` in `s`: the longest run of name characters.
pub open spec fn var_name_from(s: Seq<char>, j: int) -> Seq<char>
    decreases s.len() - j,
{
    if 0 <= j < s.len() && var_char(s[j]) {
        seq![s[j]] + var_name_from(s, j + 1)
    } else {
        Seq::empty()
    }
}

/// Relies on shellexpand::full for `~` and `$VAR` expansion. What it gives depends
/// on the environment. Without a `$` it succeeds, leaves everything after a
/// leading `~` as it is, and leaves an input with no leading `~` whole. On
/// failure, the name of the variable that could not be looked up.
#[verifier::external_body]
fn expand_full(s: &str) -> (r: Result<String, String>)
    requires
        !has_wide_var(s@),
    ensures
        !has_dollar(s@) ==> r is Ok,
        !needs_expansion(s@) ==> r is Ok && r->Ok_0@ == s@,
        !has_dollar(s@) && starts_with_tilde(s@) ==> r is Ok && r->Ok_0@.len() + 1 >= s@.len()
            && r->Ok_0@.subrange(r->Ok_0@.len() + 1 - s@.len(), r->Ok_0@.len() as int)
            == s@.drop_first(),
{
    shellexpand::full(s).map(|t| t.into_owned()).map_err(|e| e.var_name)
}

/// Whether a name character stands at `k` in `s`.
fn name_char_at(s: &str, k: usize) -> (r: bool)
    ensures
        r == (k < s@.len() && var_char(s@[k as int])),
{
    if k >= s.unicode_len() {
        return false;
    }
    let d = s.get_char(k);
    is_alphanumeric(d) || d == '_'
}

/// The first place at which `s` refers to a variable with a name that starts
/// outside ASCII, and that name.
pub fn find_wide_var(s: &str) -> (r: Option<String>)
    ensures
        r is None <==> !has_wide_var(s@),
        r is Some ==> exists|i: int|
            wide_var_at(s@, i) && (forall|j: int| 0 <= j < i ==> !wide_var_at(s@, j))
                && r->0@ == var_name_from(s@, i + 1),
{
    let n = s.unicode_len();
    let mut i: usize = 0;
    assert(var_name_from(s@, 0) == var_name_from(s@, 0));
    while i < n && i + 1 < n
        invariant
            n == s@.len(),
            forall|j: int| 0 <= j < i ==> !wide_var_at(s@, j),
        decreases n - i,
    {
        let c = s.get_char(i + 1);
        if s.get_char(i) == '$' && c > '\x7f' && is_alphanumeric(c) {
            let mut k: usize = i + 1;
            while name_char_at(s, k)
                invariant
                    i + 1 <= k <= n,
                    n == s@.len(),
                    var_name_from(s@, i + 1) == s@.subrange(i + 1, k as int) + var_name_from(
                        s@,
                        k as int,
                    ),
                decreases n - k,
            {
                let ghost d = s@[k as int];
                assert(var_name_from(s@, k as int) =~= seq![d] + var_name_from(s@, k + 1));
                assert(s@.subrange(i + 1, k + 1) =~= s@.subrange(i + 1, k as int) + seq![d]);
                k += 1;
            }
            assert(var_name_from(s@, k as int) =~= Seq::empty());
            assert(var_name_from(s@, i + 1) =~= s@.subrange(i + 1, k as int));
            assert(wide_var_at(s@, i as int));
            return Some(String::from_str(s.substring_char(i + 1, k)));
        }
        i += 1;
    }
    proof {
        assert forall|j: int| !wide_var_at(s@, j) by {
            if 0 <= j < i {
            }
        }
    }
    None
}

/// Relies on path_absolutize's `Absolutize::absolutize` for `Path`, read back
/// with `Path::to_str` (`None`: not valid text). The result depends on the
/// working directory, which is absolute and free of `.` and `..`. What comes
/// back is in normal absolute form, and a path already in that form comes back
/// as it is.
/// On failure, the I/O error's message.
#[verifier::external_body]
fn absolutize_path(s: &str) -> (r: Result<Option<String>, String>)
    ensures
        r is Ok && r->Ok_0 is Some ==> is_normal_absolute(r->Ok_0->0@),
        is_normal_absolute(s@) && r is Ok ==> r->Ok_0 is Some && r->Ok_0->0@ == s@,
{
    std::path::Path::new(s).absolutize().map(|p| p.to_str().map(|t| t.to_string())).map_err(
        |e| e.to_string(),
    )
}

/// The error for a failed expansion, or the expanded text.
pub fn expansion_outcome(expanded: Result<String, String>) -> (r: Result<String, Error>)
    ensures
        match expanded {
            Ok(t) => r == Ok::<String, Error>(t),
            Err(name) => r == Err::<String, Error>(Error::Expand(name)),
        },
{
    match expanded {
        Ok(t) => Ok(t),
        Err(name) => Err(Error::Expand(name)),
    }
}

/// The error for a failed absolutization, or the absolute path as text.
pub fn absolute_outcome(absolute: Result<Option<String>, String>) -> (r: Result<String, Error>)
    ensures
        match absolute {
            Ok(Some(t)) => r == Ok::<String, Error>(t),
            Ok(None) => r == Err::<String, Error>(Error::Convert),
            Err(m) => r == Err::<String, Error>(Error::Link(m)),
        },
{
    match absolute {
        Ok(Some(t)) => Ok(t),
        Ok(None) => Err(Error::Convert),
        Err(m) => Err(Error::Link(m)),
    }
}

/// What may come of resolving `raw`: the only errors are those of expansion and
/// of absolutization, an expansion error only where `raw` refers to a variable,
/// and a resolved path is absolute and normal. A reference to a variable whose
/// name starts outside ASCII is refused, naming the first such variable. A path
/// that is already absolute and normal, with nothing to expand, comes back
/// unchanged whenever resolution succeeds.
pub open spec fn resolved(raw: Seq<char>, r: Result<String, Error>) -> bool {
    &&& r is Err ==> (r->Err_0 is Expand || r->Err_0 is Link || r->Err_0 is Convert)
    &&& !has_dollar(raw) && r is Err ==> !(r->Err_0 is Expand)
    &&& r is Ok ==> is_normal_absolute(r->Ok_0@)
    &&& has_wide_var(raw) ==> r is Err && r->Err_0 is Expand && exists|i: int|
        wide_var_at(raw, i) && (forall|j: int| 0 <= j < i ==> !wide_var_at(raw, j))
            && r->Err_0->Expand_0@ == var_name_from(raw, i + 1)
    &&& !needs_expansion(raw) && is_normal_absolute(raw) && r is Ok ==> r->Ok_0@ == raw
}

/// Expands `raw` and makes it an absolute, normalized path.
pub fn resolve_path(raw: &str) -> (r: Result<String, Error>)
    ensures
        resolved(raw@, r),
{
    if let Some(name) = find_wide_var(raw) {
        return Err(Error::Expand(name));
    }
    let expanded = expansion_outcome(expand_full(raw))?;
    absolute_outcome(absolutize_path(expanded.as_str()))
}

} // verus!
