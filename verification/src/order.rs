//! The order in which the dictionary is searched: longer labels first, so
//! that a label always comes before every label that is a prefix of it.

use vstd::prelude::*;
use vstd::seq_lib::{to_multiset_build, to_multiset_remove};
use vstd::slice::slice_to_vec;
use crate::table::{labels_unique, LabelEntry, LabelSpec, LabelTable};

verus! {

/// `a` and `b` agree before position `k` and differ at it.
pub open spec fn first_difference(a: Seq<u8>, b: Seq<u8>, k: int) -> bool {
    &&& 0 <= k < a.len()
    &&& k < b.len()
    &&& a[k] != b[k]
    &&& forall|i: int| 0 <= i < k ==> a[i] == b[i]
}

/// `a` is a prefix of `b` and shorter than it.
pub open spec fn proper_prefix(a: Seq<u8>, b: Seq<u8>) -> bool {
    a.len() < b.len() && a.is_prefix_of(b)
}

/// `a` is less than `b` in the lexicographic order of bytes.
pub open spec fn lex_less(a: Seq<u8>, b: Seq<u8>) -> bool {
    proper_prefix(a, b) || exists|k: int| first_difference(a, b, k) && a[k] < b[k]
}

/// `a` is searched before `b`: it is longer, or as long and lexicographically
/// greater.
pub open spec fn precedes(a: Seq<u8>, b: Seq<u8>) -> bool {
    a.len() > b.len() || (a.len() == b.len() && lex_less(b, a))
}

/// Every entry is searched before the entries behind it.
pub open spec fn strictly_ordered(t: Seq<LabelSpec>) -> bool {
    forall|i: int, j: int|
        0 <= i < j < t.len() ==> precedes((#[trigger] t[i]).label, (#[trigger] t[j]).label)
}

/// Two byte strings of one length that agree up to `from` are equal or have
/// a first difference.
proof fn lemma_difference_exists(a: Seq<u8>, b: Seq<u8>, from: int)
    requires
        a.len() == b.len(),
        0 <= from <= a.len(),
        forall|i: int| 0 <= i < from ==> a[i] == b[i],
    ensures
        a == b || exists|k: int| first_difference(a, b, k),
    decreases a.len() - from,
{
    if from == a.len() {
        assert(a =~= b);
    } else if a[from] != b[from] {
        assert(first_difference(a, b, from));
    } else {
        lemma_difference_exists(a, b, from + 1);
    }
}

/// At most one position is the first difference of two byte strings.
proof fn lemma_difference_unique(a: Seq<u8>, b: Seq<u8>, k: int, m: int)
    requires
        first_difference(a, b, k),
        first_difference(a, b, m),
    ensures
        k == m,
{
    if k < m {
        assert(a[k] == b[k]);
    } else if m < k {
        assert(a[m] == b[m]);
    }
}

/// No label is searched before itself.
pub proof fn lemma_precedes_irreflexive(a: Seq<u8>)
    ensures
        !precedes(a, a),
{
}

/// Of two different labels exactly one is searched before the other.
pub proof fn lemma_precedes_total(a: Seq<u8>, b: Seq<u8>)
    ensures
        a != b ==> (precedes(a, b) <==> !precedes(b, a)),
        a == b ==> !precedes(a, b),
{
    if a != b && a.len() == b.len() {
        lemma_difference_exists(a, b, 0);
        let k = choose|k: int| first_difference(a, b, k);
        assert(first_difference(b, a, k));
        if precedes(a, b) && precedes(b, a) {
            let k1 = choose|k: int| first_difference(b, a, k) && b[k] < a[k];
            let k2 = choose|k: int| first_difference(a, b, k) && a[k] < b[k];
            assert(first_difference(a, b, k1));
            lemma_difference_unique(a, b, k1, k2);
        }
    }
}

/// Being searched before is transitive.
pub proof fn lemma_precedes_transitive(a: Seq<u8>, b: Seq<u8>, c: Seq<u8>)
    requires
        precedes(a, b),
        precedes(b, c),
    ensures
        precedes(a, c),
{
    if a.len() == b.len() && b.len() == c.len() {
        let k1 = choose|k: int| first_difference(b, a, k) && b[k] < a[k];
        let k2 = choose|k: int| first_difference(c, b, k) && c[k] < b[k];
        let k = if k1 <= k2 { k1 } else { k2 };
        assert(first_difference(c, a, k));
        assert(c[k] < a[k]);
    }
}

/// A label is searched before each of its proper prefixes.
pub proof fn lemma_longer_precedes_prefix(a: Seq<u8>, b: Seq<u8>)
    requires
        proper_prefix(a, b),
    ensures
        precedes(b, a),
{
}

/// In a strictly ordered table no label occurs twice.
pub proof fn lemma_ordered_is_unique(t: Seq<LabelSpec>)
    requires
        strictly_ordered(t),
    ensures
        labels_unique(t),
{
    assert forall|i: int, j: int| 0 <= i < t.len() && 0 <= j < t.len() && i != j implies (
    #[trigger] t[i]).label != (#[trigger] t[j]).label by {
        lemma_precedes_irreflexive(t[i].label);
        if i < j {
            assert(precedes(t[i].label, t[j].label));
        } else {
            assert(precedes(t[j].label, t[i].label));
        }
    }
}

/// Whether the bytes of `a` and `b` are the same.
pub fn same_bytes(a: &[u8], b: &[u8]) -> (same: bool)
    ensures
        same == (a@ == b@),
{
    if a.len() != b.len() {
        return false;
    }
    let mut i: usize = 0;
    while i < a.len()
        invariant
            a@.len() == b@.len(),
            i <= a@.len(),
            forall|j: int| 0 <= j < i ==> a@[j] == b@[j],
        decreases a@.len() - i,
    {
        if a[i] != b[i] {
            return false;
        }
        i += 1;
    }
    assert(a@ =~= b@);
    true
}

/// Whether `a` is searched before `b`.
pub fn searched_before(a: &[u8], b: &[u8]) -> (before: bool)
    ensures
        before == precedes(a@, b@),
{
    if a.len() != b.len() {
        return a.len() > b.len();
    }
    let mut i: usize = 0;
    while i < a.len()
        invariant
            a@.len() == b@.len(),
            i <= a@.len(),
            forall|j: int| 0 <= j < i ==> a@[j] == b@[j],
        decreases a@.len() - i,
    {
        if a[i] != b[i] {
            proof {
                assert(first_difference(b@, a@, i as int));
                if lex_less(b@, a@) {
                    let k = choose|k: int| first_difference(b@, a@, k) && b@[k] < a@[k];
                    lemma_difference_unique(b@, a@, k, i as int);
                }
            }
            return a[i] > b[i];
        }
        i += 1;
    }
    proof {
        assert(a@ =~= b@);
        lemma_precedes_irreflexive(a@);
    }
    false
}

/// The views of a run of entries.
pub open spec fn entry_views(entries: Seq<LabelEntry>) -> Seq<LabelSpec> {
    entries.map_values(|e: LabelEntry| e@)
}

/// Position `j` holds the first label of the table that has occurred before.
pub open spec fn first_repeat(t: Seq<LabelSpec>, j: int) -> bool {
    &&& 0 <= j < t.len()
    &&& labels_unique(t.take(j))
    &&& exists|i: int| 0 <= i < j && (#[trigger] t[i]).label == t[j].label
}

/// Why a dictionary cannot be put in order.
#[derive(Debug, PartialEq, Eq)]
pub enum ConfigError {
    /// Two entries carry the same label bytes.
    DuplicateLabel { label: Vec<u8> },
}

/// The dictionary in search order. No label occurs twice in it.
#[derive(Debug)]
pub struct OrderedTable {
    entries: Vec<LabelEntry>,
}

impl View for OrderedTable {
    type V = Seq<LabelSpec>;

    closed spec fn view(&self) -> Seq<LabelSpec> {
        entry_views(self.entries@)
    }
}

impl OrderedTable {
    /// What holds of every ordered table.
    #[verifier::type_invariant]
    pub open spec fn in_order(self) -> bool {
        strictly_ordered(self@)
    }

    /// The number of entries.
    pub fn len(&self) -> (n: usize)
        ensures
            n == self@.len(),
    {
        self.entries.len()
    }

    /// The entry at position `i` of the search order, if there is one.
    pub fn get(&self, i: usize) -> (entry: Option<&LabelEntry>)
        ensures
            entry is Some <==> i < self@.len(),
            entry matches Some(e) ==> e@ == self@[i as int],
            self@.len() <= usize::MAX,
    {
        if i < self.entries.len() {
            Some(&self.entries[i])
        } else {
            None
        }
    }
}

/// Two sequences that hold the same elements equally often contain the same
/// elements.
pub proof fn lemma_same_elements<A>(s: Seq<A>, t: Seq<A>, a: A)
    requires
        s.to_multiset() == t.to_multiset(),
        s.contains(a),
    ensures
        t.contains(a),
{
    s.to_multiset_ensures();
    t.to_multiset_ensures();
    assert(s.to_multiset().count(a) > 0);
    assert(t.to_multiset().count(a) > 0);
}

/// Inserting an element adds it, once, to what a sequence holds.
proof fn lemma_insert_adds_one<A>(s: Seq<A>, pos: int, a: A)
    requires
        0 <= pos <= s.len(),
    ensures
        s.insert(pos, a).to_multiset() == s.to_multiset().insert(a),
{
    let t = s.insert(pos, a);
    assert(t[pos] == a);
    assert(t.remove(pos) =~= s);
    to_multiset_remove(t, pos);
    t.to_multiset_ensures();
    assert(t.contains(a));
    assert(t.to_multiset() =~= s.to_multiset().insert(a));
}

/// Putting an entry between those that are searched before it and those
/// that it is searched before keeps a table in order.
proof fn lemma_insert_keeps_order(t: Seq<LabelSpec>, pos: int, e: LabelSpec)
    requires
        strictly_ordered(t),
        0 <= pos <= t.len(),
        forall|k: int| 0 <= k < pos ==> precedes((#[trigger] t[k]).label, e.label),
        forall|k: int| pos <= k < t.len() ==> precedes(e.label, (#[trigger] t[k]).label),
    ensures
        strictly_ordered(t.insert(pos, e)),
{
    let u = t.insert(pos, e);
    assert forall|i: int, j: int| 0 <= i < j < u.len() implies precedes(
        (#[trigger] u[i]).label,
        (#[trigger] u[j]).label,
    ) by {
        let i0 = if i < pos { i } else { i - 1 };
        let j0 = if j < pos { j } else { j - 1 };
        if i != pos {
            assert(u[i] == t[i0]);
        }
        if j != pos {
            assert(u[j] == t[j0]);
        }
    }
}

/// The first position of an ordered run whose label is not searched before
/// `label`.
fn insertion_point(sorted: &Vec<LabelEntry>, label: &[u8]) -> (pos: usize)
    ensures
        pos <= sorted@.len(),
        forall|k: int| 0 <= k < pos ==> precedes((#[trigger] sorted@[k])@.label, label@),
        pos < sorted@.len() ==> !precedes(sorted@[pos as int]@.label, label@),
{
    let mut pos: usize = 0;
    while pos < sorted.len()
        invariant
            pos <= sorted@.len(),
            forall|k: int| 0 <= k < pos ==> precedes((#[trigger] sorted@[k])@.label, label@),
        decreases sorted@.len() - pos,
    {
        if !searched_before(sorted[pos].label(), label) {
            return pos;
        }
        pos += 1;
    }
    pos
}

/// Puts the dictionary in search order: by descending length of the label,
/// and among labels of one length by descending lexicographic order of
/// their bytes. It fails if, and only if, a label occurs twice, and then
/// reports the first label of the table that repeats an earlier one.
pub fn normalize(table: &LabelTable) -> (ordered: Result<OrderedTable, ConfigError>)
    ensures
        ordered is Ok <==> labels_unique(table@),
        ordered matches Ok(o) ==> strictly_ordered(o@) && o@.to_multiset()
            == table@.to_multiset(),
        ordered matches Err(ConfigError::DuplicateLabel { label }) ==> exists|j: int|
            first_repeat(table@, j) && label@ == (#[trigger] table@[j]).label,
{
    let mut sorted: Vec<LabelEntry> = Vec::new();
    let mut i: usize = 0;
    assert(entry_views(sorted@) =~= table@.take(0));
    loop
        invariant
            i <= table@.len(),
            strictly_ordered(entry_views(sorted@)),
            entry_views(sorted@).to_multiset() == table@.take(i as int).to_multiset(),
            labels_unique(table@.take(i as int)),
        ensures
            i == table@.len(),
        decreases table@.len() - i,
    {
        let entry = match table.get(i) {
            Some(entry) => entry,
            None => {
                break ;
            },
        };
        let pos = insertion_point(&sorted, entry.label());
        let ghost before = entry_views(sorted@);
        let ghost seen = table@.take(i as int);
        if pos < sorted.len() && same_bytes(sorted[pos].label(), entry.label()) {
            proof {
                let twin = before[pos as int];
                assert(before.contains(twin));
                lemma_same_elements(before, seen, twin);
                let j = choose|j: int| 0 <= j < seen.len() && seen[j] == twin;
                assert(table@[j].label == table@[i as int].label);
                assert(first_repeat(table@, i as int));
            }
            return Err(ConfigError::DuplicateLabel { label: slice_to_vec(entry.label()) });
        }
        proof {
            assert forall|k: int| pos <= k < before.len() implies precedes(
                entry@.label,
                (#[trigger] before[k]).label,
            ) by {
                lemma_precedes_total(before[pos as int].label, entry@.label);
                if k > pos {
                    assert(precedes(before[pos as int].label, before[k].label));
                    lemma_precedes_transitive(
                        entry@.label,
                        before[pos as int].label,
                        before[k].label,
                    );
                }
            }
            lemma_insert_keeps_order(before, pos as int, entry@);
            lemma_insert_adds_one(before, pos as int, entry@);
            assert(table@.take(i + 1) =~= seen.push(table@[i as int]));
            to_multiset_build(seen, table@[i as int]);
            assert forall|a: int, b: int|
                0 <= a < i + 1 && 0 <= b < i + 1 && a != b implies (#[trigger] table@.take(
                i + 1,
            )[a]).label != (#[trigger] table@.take(i + 1)[b]).label by {
                let old_one = if a == i { b } else { a };
                if a == i || b == i {
                    assert(seen.contains(seen[old_one]));
                    lemma_same_elements(seen, before, seen[old_one]);
                    let k = choose|k: int| 0 <= k < before.len() && before[k] == seen[old_one];
                    lemma_precedes_irreflexive(entry@.label);
                    if k < pos {
                        assert(precedes(before[k].label, entry@.label));
                    } else {
                        assert(precedes(entry@.label, before[k].label));
                    }
                } else {
                    assert(seen[a].label != seen[b].label);
                }
            }
        }
        sorted.insert(pos, entry.duplicate());
        assert(entry_views(sorted@) =~= before.insert(pos as int, entry@));
        i += 1;
    }
    assert(table@.take(i as int) =~= table@);
    Ok(OrderedTable { entries: sorted })
}

} // verus!
