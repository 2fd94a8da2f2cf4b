//! When two definitions describe the same daemon, and the order in which the
//! loaded set lists them.

use vstd::prelude::*;

use crate::daemons::{ConfigView, DaemonConfig};
use crate::text::{
    lemma_lex_asymmetric, lemma_lex_irreflexive, lemma_lex_total, lemma_lex_transitive, lex_less,
    same_text, text_less,
};

verus! {

/// Two definitions are duplicates of each other: the same executable in the
/// same run group. Description and arguments do not count.
pub open spec fn same_daemon(a: ConfigView, b: ConfigView) -> bool {
    a.command == b.command && a.run_group == b.run_group
}

/// `a` is listed before `b`: by the path of the executable in lexicographic
/// order, and within one path by run group.
pub open spec fn before(a: ConfigView, b: ConfigView) -> bool {
    lex_less(a.command, b.command) || (a.command == b.command && a.run_group < b.run_group)
}

/// Every definition is listed before all that follow it.
pub open spec fn sorted(s: Seq<ConfigView>) -> bool {
    forall|i: int, j: int| 0 <= i < j < s.len() ==> before(s[i], s[j])
}

/// Whether one definition duplicates the other.
pub fn same_identity(a: &DaemonConfig, b: &DaemonConfig) -> (r: bool)
    ensures
        r == same_daemon(a@, b@),
{
    a.run_group == b.run_group && same_text(a.command.as_str(), b.command.as_str())
}

/// Whether `a` is listed before `b`.
pub fn comes_before(a: &DaemonConfig, b: &DaemonConfig) -> (r: bool)
    ensures
        r == before(a@, b@),
{
    if text_less(a.command.as_str(), b.command.as_str()) {
        true
    } else {
        a.run_group < b.run_group && same_text(a.command.as_str(), b.command.as_str())
    }
}

/// A definition is neither before a duplicate of itself nor both before and
/// after another.
pub proof fn lemma_before_exclusive(a: ConfigView, b: ConfigView)
    ensures
        !(before(a, b) && same_daemon(a, b)),
        !(before(a, b) && before(b, a)),
{
    lemma_lex_irreflexive(a.command);
    lemma_lex_asymmetric(a.command, b.command);
}

/// The listing order is transitive.
pub proof fn lemma_before_transitive(a: ConfigView, b: ConfigView, c: ConfigView)
    requires
        before(a, b),
        before(b, c),
    ensures
        before(a, c),
{
    if lex_less(a.command, b.command) && lex_less(b.command, c.command) {
        lemma_lex_transitive(a.command, b.command, c.command);
    }
}

/// Two definitions that are not duplicates are listed one before the other.
pub proof fn lemma_before_total(a: ConfigView, b: ConfigView)
    ensures
        before(a, b) || same_daemon(a, b) || before(b, a),
{
    lemma_lex_total(a.command, b.command);
}

/// In a sorted list no two definitions are duplicates.
pub proof fn lemma_sorted_distinct(s: Seq<ConfigView>)
    requires
        sorted(s),
    ensures
        forall|i: int, j: int| 0 <= i < s.len() && 0 <= j < s.len() && i != j ==> !same_daemon(s[i], s[j]),
{
    assert forall|i: int, j: int| 0 <= i < s.len() && 0 <= j < s.len() && i != j implies !same_daemon(
        s[i],
        s[j],
    ) by {
        if i < j {
            lemma_before_exclusive(s[i], s[j]);
        } else {
            lemma_before_exclusive(s[j], s[i]);
        }
    }
}

/// A sorted list is in the order of its commands.
pub proof fn lemma_sorted_by_command(s: Seq<ConfigView>)
    requires
        sorted(s),
    ensures
        forall|i: int, j: int| 0 <= i < j < s.len() ==> !lex_less(s[j].command, s[i].command),
{
    assert forall|i: int, j: int| 0 <= i < j < s.len() implies !lex_less(s[j].command, s[i].command) by {
        assert(before(s[i], s[j]));
        lemma_lex_asymmetric(s[i].command, s[j].command);
        lemma_lex_irreflexive(s[i].command);
    }
}

/// With `p` the first place whose definition is not before `c`, the list
/// holds a duplicate of `c` exactly if the definition at `p` is one.
pub proof fn lemma_duplicate_at(s: Seq<ConfigView>, c: ConfigView, p: int)
    requires
        sorted(s),
        0 <= p <= s.len(),
        forall|k: int| 0 <= k < p ==> before(s[k], c),
        p < s.len() ==> !before(s[p], c),
    ensures
        (exists|k: int| 0 <= k < s.len() && same_daemon(s[k], c)) <==> (p < s.len() && same_daemon(s[p], c)),
{
    if exists|k: int| 0 <= k < s.len() && same_daemon(s[k], c) {
        let k = choose|k: int| 0 <= k < s.len() && same_daemon(s[k], c);
        if k < p {
            lemma_before_exclusive(s[k], c);
        } else if k > p {
            assert(before(s[p], s[k]));
        }
    }
}

/// Putting `c` at the first place whose definition is not before it keeps a
/// sorted list sorted, unless that definition is a duplicate of `c`.
pub proof fn lemma_insert_sorted(s: Seq<ConfigView>, c: ConfigView, p: int)
    requires
        sorted(s),
        0 <= p <= s.len(),
        forall|k: int| 0 <= k < p ==> before(s[k], c),
        p < s.len() ==> !before(s[p], c) && !same_daemon(s[p], c),
    ensures
        sorted(s.insert(p, c)),
{
    let t = s.insert(p, c);
    assert forall|i: int, j: int| 0 <= i < j < t.len() implies before(t[i], t[j]) by {
        if j < p {
            assert(t[i] == s[i] && t[j] == s[j]);
        } else if j == p {
            assert(t[i] == s[i]);
        } else if i == p {
            assert(t[j] == s[j - 1]);
            lemma_before_total(s[p], c);
            if j - 1 > p {
                assert(before(s[p], s[j - 1]));
                lemma_before_transitive(c, s[p], s[j - 1]);
            }
        } else if i < p {
            assert(t[i] == s[i] && t[j] == s[j - 1]);
        } else {
            assert(t[i] == s[i - 1] && t[j] == s[j - 1]);
        }
    }
}

} // verus!
