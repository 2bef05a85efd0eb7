//! The order of `Config::files`: keys compared character by character, as
//! byte-wise comparison of their UTF-8 text orders them.
use vstd::prelude::*;
use vstd::string::*;

use crate::tags::views;
use crate::{Entry, FileType};

verus! {

/// `a` sorts strictly before `b`.
pub open spec fn key_lt(a: Seq<char>, b: Seq<char>) -> bool
    decreases a.len(),
{
    if a.len() == 0 {
        b.len() > 0
    } else if b.len() == 0 {
        false
    } else if a[0] != b[0] {
        a[0] < b[0]
    } else {
        key_lt(a.drop_first(), b.drop_first())
    }
}

/// No key sorts before itself.
pub proof fn lemma_key_lt_irreflexive(a: Seq<char>)
    ensures
        !key_lt(a, a),
    decreases a.len(),
{
    if a.len() > 0 {
        lemma_key_lt_irreflexive(a.drop_first());
    }
}

/// Two different keys are ordered one way.
pub proof fn lemma_key_lt_total(a: Seq<char>, b: Seq<char>)
    requires
        a != b,
    ensures
        key_lt(a, b) || key_lt(b, a),
    decreases a.len(),
{
    if a.len() > 0 && b.len() > 0 && a[0] == b[0] {
        if a.drop_first() == b.drop_first() {
            assert(a =~= seq![a[0]] + a.drop_first());
            assert(b =~= seq![b[0]] + b.drop_first());
        }
        lemma_key_lt_total(a.drop_first(), b.drop_first());
    } else if a.len() == 0 && b.len() == 0 {
        assert(a =~= b);
    }
}

/// The order is transitive.
pub proof fn lemma_key_lt_transitive(a: Seq<char>, b: Seq<char>, c: Seq<char>)
    requires
        key_lt(a, b),
        key_lt(b, c),
    ensures
        key_lt(a, c),
    decreases a.len(),
{
    if a.len() > 0 && a[0] == b[0] && b[0] == c[0] {
        lemma_key_lt_transitive(a.drop_first(), b.drop_first(), c.drop_first());
    }
}

/// Whether `a` sorts strictly before `b`.
pub fn key_less(a: &str, b: &str) -> (r: bool)
    ensures
        r == key_lt(a@, b@),
{
    let n = a.unicode_len();
    let m = b.unicode_len();
    let mut i: usize = 0;
    assert(a@.skip(0) =~= a@);
    assert(b@.skip(0) =~= b@);
    while i < n && i < m
        invariant
            i <= n,
            i <= m,
            n == a@.len(),
            m == b@.len(),
            key_lt(a@, b@) == key_lt(a@.skip(i as int), b@.skip(i as int)),
        decreases n - i,
    {
        let x = a.get_char(i);
        let y = b.get_char(i);
        if x != y {
            return x < y;
        }
        assert(a@.skip(i as int).drop_first() =~= a@.skip(i + 1));
        assert(b@.skip(i as int).drop_first() =~= b@.skip(i + 1));
        i += 1;
    }
    i < m
}

/// What an entry holds: the link's destination (none for a command) and its tags.
pub open spec fn entry_view(e: Entry) -> (Option<Seq<char>>, Seq<Seq<char>>) {
    (
        match e.ft {
            FileType::Link { dest } => Some(dest@),
            FileType::Exec => None,
        },
        views(e.tags@),
    )
}

/// The keys of `files` increase strictly.
pub open spec fn keys_sorted(files: Seq<(String, Entry)>) -> bool {
    forall|i: int, j: int| 0 <= i < j < files.len() ==> key_lt(files[i].0@, files[j].0@)
}

/// `files` holds exactly the entries of `table`, one for each key.
pub open spec fn holds(
    files: Seq<(String, Entry)>,
    table: Map<Seq<char>, (Option<Seq<char>>, Seq<Seq<char>>)>,
) -> bool {
    &&& forall|i: int| #![trigger files[i]]
        0 <= i < files.len() ==> table.contains_key(files[i].0@) && table[files[i].0@]
            == entry_view(files[i].1)
    &&& forall|k: Seq<char>|
        table.contains_key(k) ==> exists|i: int| 0 <= i < files.len() && #[trigger] files[i].0@ == k
}

/// Puts `entry` under `key`, in order, replacing an entry with the same key.
pub fn insert_sorted(files: &mut Vec<(String, Entry)>, key: String, entry: Entry)
    requires
        keys_sorted(old(files)@),
    ensures
        keys_sorted(final(files)@),
        forall|table: Map<Seq<char>, (Option<Seq<char>>, Seq<Seq<char>>)>|
            holds(old(files)@, table) ==> #[trigger] holds(
                final(files)@,
                table.insert(key@, entry_view(entry)),
            ),
{
    let ghost s = files@;
    let mut p: usize = 0;
    while p < files.len() && key_less(files[p].0.as_str(), key.as_str())
        invariant
            p <= files@.len(),
            files@ == s,
            forall|i: int| 0 <= i < p ==> key_lt(#[trigger] s[i].0@, key@),
        decreases files@.len() - p,
    {
        p += 1;
    }
    proof {
        if p < s.len() {
            assert forall|j: int| p <= j < s.len() implies key@ == s[j].0@ || key_lt(
                key@,
                #[trigger] s[j].0@,
            ) by {
                if key@ != s[p as int].0@ {
                    lemma_key_lt_total(key@, s[p as int].0@);
                }
                if j > p {
                    if key@ == s[p as int].0@ {
                    } else {
                        lemma_key_lt_transitive(key@, s[p as int].0@, s[j].0@);
                    }
                }
            }
        }
    }
    let same = p < files.len() && files[p].0 == key;
    if same {
        files.set(p, (key, entry));
        proof {
            let t = files@;
            assert forall|i: int, j: int| 0 <= i < j < t.len() implies key_lt(
                t[i].0@,
                t[j].0@,
            ) by {
                assert(t[i].0@ == s[i].0@);
                assert(t[j].0@ == s[j].0@);
            }
            assert forall|table: Map<Seq<char>, (Option<Seq<char>>, Seq<Seq<char>>)>|
                holds(s, table) implies #[trigger] holds(t, table.insert(key@, entry_view(entry))) by {
                let nt = table.insert(key@, entry_view(entry));
                assert forall|i: int| #![trigger t[i]] 0 <= i < t.len() implies nt.contains_key(
                    t[i].0@,
                ) && nt[t[i].0@] == entry_view(t[i].1) by {
                    if i != p {
                        if i < p {
                            lemma_key_lt_irreflexive(key@);
                        } else {
                            assert(key_lt(s[p as int].0@, s[i].0@));
                            lemma_key_lt_irreflexive(s[i].0@);
                        }
                        assert(t[i] == s[i]);
                        assert(s[i].0@ != key@);
                    }
                }
                assert forall|k: Seq<char>| nt.contains_key(k) implies exists|i: int|
                    0 <= i < t.len() && #[trigger] t[i].0@ == k by {
                    if k == key@ {
                        assert(t[p as int].0@ == k);
                    } else {
                        let i = choose|i: int| 0 <= i < s.len() && #[trigger] s[i].0@ == k;
                        assert(t[i].0@ == k);
                    }
                }
            }
        }
    } else {
        files.insert(p, (key, entry));
        proof {
            let t = files@;
            assert forall|i: int| 0 <= i < s.len() implies s[i].0@ != key@ by {
                if i < p {
                    lemma_key_lt_irreflexive(key@);
                } else {
                    lemma_key_lt_irreflexive(key@);
                    assert(key_lt(key@, s[i].0@) || key@ == s[i].0@);
                    if key@ == s[i].0@ {
                        if i > p {
                            lemma_key_lt_transitive(key@, s[p as int].0@, s[i].0@);
                            assert(key_lt(s[p as int].0@, s[i].0@));
                        }
                    }
                }
            }
            assert forall|i: int, j: int| 0 <= i < j < t.len() implies key_lt(
                t[i].0@,
                t[j].0@,
            ) by {
                if j < p {
                    assert(t[i] == s[i] && t[j] == s[j]);
                } else if j == p {
                    assert(t[i] == s[i]);
                } else if i < p {
                    assert(t[i] == s[i] && t[j] == s[j - 1]);
                    lemma_key_lt_transitive(s[i].0@, key@, s[j - 1].0@);
                } else if i == p {
                    assert(t[j] == s[j - 1]);
                } else {
                    assert(t[i] == s[i - 1] && t[j] == s[j - 1]);
                }
            }
            assert forall|table: Map<Seq<char>, (Option<Seq<char>>, Seq<Seq<char>>)>|
                holds(s, table) implies #[trigger] holds(t, table.insert(key@, entry_view(entry))) by {
                let nt = table.insert(key@, entry_view(entry));
                assert forall|i: int| #![trigger t[i]] 0 <= i < t.len() implies nt.contains_key(
                    t[i].0@,
                ) && nt[t[i].0@] == entry_view(t[i].1) by {
                    if i < p {
                        assert(t[i] == s[i]);
                    } else if i > p {
                        assert(t[i] == s[i - 1]);
                    }
                }
                assert forall|k: Seq<char>| nt.contains_key(k) implies exists|i: int|
                    0 <= i < t.len() && #[trigger] t[i].0@ == k by {
                    if k == key@ {
                        assert(t[p as int].0@ == k);
                    } else {
                        let i = choose|i: int| 0 <= i < s.len() && #[trigger] s[i].0@ == k;
                        if i < p {
                            assert(t[i] == s[i]);
                        } else {
                            assert(t[i + 1] == s[i]);
                        }
                    }
                }
            }
        }
    }
}

} // verus!
