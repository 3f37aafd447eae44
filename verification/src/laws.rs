//! What holds of every dictionary and every haystack, stated over the
//! functions that the contracts of `normalize`, `compile` and `find` use.

use vstd::prelude::*;
use vstd::seq_lib::to_multiset_remove;
use crate::matcher::{is_longest_match, lemma_longest_match_is, longest_match, matches_at};
use crate::matcher::{no_match, outcome, MatchResult};
use crate::order::{lemma_longer_precedes_prefix, lemma_precedes_total, lemma_same_elements};
use crate::order::{precedes, proper_prefix, strictly_ordered};
use crate::table::{labels_unique, nonempty_labels, LabelSpec};

verus! {

/// Among the first `n` entries, if one matches then one of them is the
/// longest that does.
proof fn lemma_longest_among(t: Seq<LabelSpec>, haystack: Seq<u8>, n: int) -> (best: int)
    requires
        0 <= n <= t.len(),
        exists|i: int| 0 <= i < n && matches_at(t, haystack, i),
    ensures
        0 <= best < n,
        matches_at(t, haystack, best),
        forall|j: int|
            0 <= j < n && matches_at(t, haystack, j) ==> t[j].label.len() <= t[best].label.len(),
    decreases n,
{
    let last = n - 1;
    if exists|i: int| 0 <= i < last && matches_at(t, haystack, i) {
        let before = lemma_longest_among(t, haystack, last);
        if matches_at(t, haystack, last) && t[last].label.len() > t[before].label.len() {
            last
        } else {
            before
        }
    } else {
        last
    }
}

/// In search order a label stands behind every label that it is a proper
/// prefix of.
pub proof fn lemma_prefix_comes_later(t: Seq<LabelSpec>, short: int, long: int)
    requires
        strictly_ordered(t),
        0 <= short < t.len(),
        0 <= long < t.len(),
        proper_prefix(t[short].label, t[long].label),
    ensures
        long < short,
{
    lemma_longer_precedes_prefix(t[short].label, t[long].label);
    lemma_precedes_total(t[long].label, t[short].label);
    if short < long {
        assert(precedes(t[short].label, t[long].label));
    }
}

/// `find` reports no match exactly where no label is a prefix of the
/// haystack.
pub proof fn lemma_none_iff_no_label_matches(t: Seq<LabelSpec>, haystack: Seq<u8>)
    ensures
        longest_match(t, haystack) is None <==> no_match(t, haystack),
{
    if !no_match(t, haystack) {
        let i = choose|i: int| matches_at(t, haystack, i);
        let best = lemma_longest_among(t, haystack, t.len() as int);
        assert(is_longest_match(t, haystack, best));
    }
}

/// Every label of a table, taken as the haystack, is found with its own
/// unit and its whole length.
pub proof fn lemma_label_finds_itself(t: Seq<LabelSpec>, i: int)
    requires
        labels_unique(t),
        0 <= i < t.len(),
    ensures
        longest_match(t, t[i].label) == Some((t[i].unit, t[i].label.len())),
{
    let haystack = t[i].label;
    assert(haystack.subrange(0, haystack.len() as int) =~= haystack);
    assert(is_longest_match(t, haystack, i));
    lemma_longest_match_is(t, haystack, i);
}

/// Every label that a dictionary lists is found by the procedure compiled
/// from it, with its own unit and its whole length.
pub proof fn lemma_configured_label_is_found(
    table: Seq<LabelSpec>,
    compiled: Seq<LabelSpec>,
    i: int,
)
    requires
        labels_unique(table),
        compiled.to_multiset() == table.to_multiset(),
        0 <= i < table.len(),
    ensures
        longest_match(compiled, table[i].label) == Some((table[i].unit, table[i].label.len())),
{
    lemma_label_finds_itself(table, i);
    lemma_answer_ignores_order(table, compiled, table[i].label);
}

/// Where one label of a dictionary is a proper prefix of another, the
/// procedure compiled from it finds the longer one as itself, never as the
/// shorter one.
pub proof fn lemma_longer_label_wins(
    table: Seq<LabelSpec>,
    compiled: Seq<LabelSpec>,
    short: int,
    long: int,
)
    requires
        labels_unique(table),
        compiled.to_multiset() == table.to_multiset(),
        0 <= short < table.len(),
        0 <= long < table.len(),
        proper_prefix(table[short].label, table[long].label),
    ensures
        longest_match(compiled, table[long].label) == Some(
            (table[long].unit, table[long].label.len()),
        ),
        longest_match(compiled, table[long].label) != Some(
            (table[short].unit, table[short].label.len()),
        ),
{
    lemma_configured_label_is_found(table, compiled, long);
}

/// An empty haystack matches no label.
pub proof fn lemma_empty_haystack_matches_nothing(t: Seq<LabelSpec>)
    requires
        nonempty_labels(t),
    ensures
        no_match(t, Seq::<u8>::empty()),
        longest_match(t, Seq::<u8>::empty()) is None,
{
    assert forall|i: int| !matches_at(t, Seq::<u8>::empty(), i) by {
        if 0 <= i < t.len() {
            assert(t[i].label.len() > 0);
        }
    }
}

/// A match takes up at least one byte and no more than the haystack has.
pub proof fn lemma_match_is_within_haystack(t: Seq<LabelSpec>, haystack: Seq<u8>)
    requires
        nonempty_labels(t),
    ensures
        longest_match(t, haystack) matches Some((_, consumed)) ==> 0 < consumed <= haystack.len(),
{
    if exists|i: int| is_longest_match(t, haystack, i) {
        let i = choose|i: int| is_longest_match(t, haystack, i);
        assert(t[i].label.len() > 0);
    }
}

/// Two answers of `find` to one haystack, from one dictionary, are the same
/// answer.
pub proof fn lemma_find_is_deterministic(
    t: Seq<LabelSpec>,
    haystack: Seq<u8>,
    first: Option<MatchResult>,
    second: Option<MatchResult>,
)
    requires
        outcome(first) == longest_match(t, haystack),
        outcome(second) == longest_match(t, haystack),
    ensures
        first == second,
{
}

/// Whether a dictionary repeats a label does not depend on the order of its
/// entries.
pub proof fn lemma_uniqueness_ignores_order(a: Seq<LabelSpec>, b: Seq<LabelSpec>)
    requires
        a.to_multiset() == b.to_multiset(),
        labels_unique(a),
    ensures
        labels_unique(b),
{
    assert(a.no_duplicates());
    a.lemma_multiset_has_no_duplicates();
    b.lemma_multiset_has_no_duplicates_conv();
    assert forall|p: int, q: int| 0 <= p < b.len() && 0 <= q < b.len() && p != q implies (
    #[trigger] b[p]).label != (#[trigger] b[q]).label by {
        assert(b.contains(b[p]));
        assert(b.contains(b[q]));
        lemma_same_elements(b, a, b[p]);
        lemma_same_elements(b, a, b[q]);
        let i = choose|i: int| 0 <= i < a.len() && a[i] == b[p];
        let j = choose|j: int| 0 <= j < a.len() && a[j] == b[q];
        if i != j {
            assert(a[i].label != a[j].label);
        }
    }
}

/// There is one search order: two tables in search order that hold the same
/// entries are the same table.
pub proof fn lemma_search_order_is_canonical(a: Seq<LabelSpec>, b: Seq<LabelSpec>)
    requires
        strictly_ordered(a),
        strictly_ordered(b),
        a.to_multiset() == b.to_multiset(),
    ensures
        a == b,
    decreases a.len(),
{
    a.to_multiset_ensures();
    b.to_multiset_ensures();
    assert(a.len() == b.len());
    if a.len() > 0 {
        assert(a.contains(a[0]));
        assert(b.contains(b[0]));
        lemma_same_elements(a, b, a[0]);
        lemma_same_elements(b, a, b[0]);
        let k = choose|k: int| 0 <= k < b.len() && b[k] == a[0];
        let m = choose|m: int| 0 <= m < a.len() && a[m] == b[0];
        if k > 0 && m > 0 {
            assert(precedes(b[0].label, b[k].label));
            assert(precedes(a[0].label, a[m].label));
            lemma_precedes_total(a[0].label, b[0].label);
        }
        assert(a[0] == b[0]);
        to_multiset_remove(a, 0);
        to_multiset_remove(b, 0);
        let a_rest = a.remove(0);
        let b_rest = b.remove(0);
        assert forall|i: int, j: int| 0 <= i < j < a_rest.len() implies precedes(
            (#[trigger] a_rest[i]).label,
            (#[trigger] a_rest[j]).label,
        ) by {
            assert(a_rest[i] == a[i + 1] && a_rest[j] == a[j + 1]);
        }
        assert forall|i: int, j: int| 0 <= i < j < b_rest.len() implies precedes(
            (#[trigger] b_rest[i]).label,
            (#[trigger] b_rest[j]).label,
        ) by {
            assert(b_rest[i] == b[i + 1] && b_rest[j] == b[j + 1]);
        }
        lemma_search_order_is_canonical(a_rest, b_rest);
        assert forall|i: int| 0 <= i < a.len() implies a[i] == b[i] by {
            if i > 0 {
                assert(a[i] == a_rest[i - 1]);
                assert(b[i] == b_rest[i - 1]);
            }
        }
    }
    assert(a =~= b);
}

/// The order in which a dictionary lists its entries does not matter: two
/// dictionaries with the same entries have the same table in search order,
/// and `find` gives the same answer to every haystack.
pub proof fn lemma_input_order_does_not_matter(
    first: Seq<LabelSpec>,
    second: Seq<LabelSpec>,
    first_ordered: Seq<LabelSpec>,
    second_ordered: Seq<LabelSpec>,
)
    requires
        first.to_multiset() == second.to_multiset(),
        strictly_ordered(first_ordered),
        first_ordered.to_multiset() == first.to_multiset(),
        strictly_ordered(second_ordered),
        second_ordered.to_multiset() == second.to_multiset(),
    ensures
        first_ordered == second_ordered,
        forall|haystack: Seq<u8>|
            longest_match(first_ordered, haystack) == longest_match(second_ordered, haystack),
{
    lemma_search_order_is_canonical(first_ordered, second_ordered);
}

/// What `find` answers is decided by the entries alone, in whatever order a
/// table holds them: the table in search order answers as the table that it
/// was made from would.
pub proof fn lemma_answer_ignores_order(a: Seq<LabelSpec>, b: Seq<LabelSpec>, haystack: Seq<u8>)
    requires
        a.to_multiset() == b.to_multiset(),
        labels_unique(a),
    ensures
        longest_match(a, haystack) == longest_match(b, haystack),
{
    lemma_uniqueness_ignores_order(a, b);
    lemma_none_iff_no_label_matches(a, haystack);
    lemma_none_iff_no_label_matches(b, haystack);
    if exists|i: int| is_longest_match(a, haystack, i) {
        let i = choose|i: int| is_longest_match(a, haystack, i);
        assert(a.contains(a[i]));
        lemma_same_elements(a, b, a[i]);
        let k = choose|k: int| 0 <= k < b.len() && b[k] == a[i];
        assert forall|j: int| matches_at(b, haystack, j) implies b[j].label.len()
            <= b[k].label.len() by {
            assert(b.contains(b[j]));
            lemma_same_elements(b, a, b[j]);
            let m = choose|m: int| 0 <= m < a.len() && a[m] == b[j];
            assert(matches_at(a, haystack, m));
        }
        assert(is_longest_match(b, haystack, k));
        lemma_longest_match_is(a, haystack, i);
        lemma_longest_match_is(b, haystack, k);
    } else {
        assert(no_match(a, haystack));
        assert forall|j: int| !matches_at(b, haystack, j) by {
            if matches_at(b, haystack, j) {
                assert(b.contains(b[j]));
                lemma_same_elements(b, a, b[j]);
                let m = choose|m: int| 0 <= m < a.len() && a[m] == b[j];
                assert(matches_at(a, haystack, m));
            }
        }
    }
}

} // verus!
