//! The decision procedure: which label of the dictionary stands at the
//! start of a byte buffer, and how many bytes it takes up.

use vstd::prelude::*;
use crate::order::{normalize, precedes, strictly_ordered, ConfigError, OrderedTable};
use crate::order::{lemma_ordered_is_unique, lemma_precedes_irreflexive};
use crate::table::{labels_unique, nonempty_labels, LabelSpec, LabelTable};
use crate::unit::Unit;

verus! {

/// A recognized designator: the unit it denotes and the number of bytes
/// (not characters) that it takes up at the start of the buffer.
#[derive(Clone, Copy, Debug, PartialEq, Eq, Structural)]
pub struct MatchResult {
    pub unit: Unit,
    pub consumed: usize,
}

/// A match as a unit and a count of bytes; no match as `None`.
pub open spec fn outcome(found: Option<MatchResult>) -> Option<(Unit, nat)> {
    match found {
        Some(m) => Some((m.unit, m.consumed as nat)),
        None => None,
    }
}

/// Entry `i` of the table is a prefix of the haystack.
pub open spec fn matches_at(t: Seq<LabelSpec>, haystack: Seq<u8>, i: int) -> bool {
    0 <= i < t.len() && t[i].label.is_prefix_of(haystack)
}

/// No entry of the table is a prefix of the haystack.
pub open spec fn no_match(t: Seq<LabelSpec>, haystack: Seq<u8>) -> bool {
    forall|i: int| !matches_at(t, haystack, i)
}

/// Entry `i` is a prefix of the haystack, and no entry before it is.
pub open spec fn is_first_match(t: Seq<LabelSpec>, haystack: Seq<u8>, i: int) -> bool {
    matches_at(t, haystack, i) && forall|j: int| 0 <= j < i ==> !matches_at(t, haystack, j)
}

/// Entry `i` is a prefix of the haystack, and no entry that is one is longer.
pub open spec fn is_longest_match(t: Seq<LabelSpec>, haystack: Seq<u8>, i: int) -> bool {
    matches_at(t, haystack, i) && forall|j: int|
        matches_at(t, haystack, j) ==> t[j].label.len() <= t[i].label.len()
}

/// The unit and the length of the longest label of the table that is a
/// prefix of the haystack; `None` where no label is one. In a table without
/// repeated labels at most one entry is the longest.
pub open spec fn longest_match(t: Seq<LabelSpec>, haystack: Seq<u8>) -> Option<(Unit, nat)> {
    if exists|i: int| is_longest_match(t, haystack, i) {
        let i = choose|i: int| is_longest_match(t, haystack, i);
        Some((t[i].unit, t[i].label.len()))
    } else {
        None
    }
}

/// Two prefixes of one haystack that are equally long are the same bytes.
proof fn lemma_prefixes_of_one_length(a: Seq<u8>, b: Seq<u8>, haystack: Seq<u8>)
    requires
        a.is_prefix_of(haystack),
        b.is_prefix_of(haystack),
        a.len() == b.len(),
    ensures
        a == b,
{
    assert(a =~= b);
}

/// In a table without repeated labels at most one entry is the longest
/// match.
pub proof fn lemma_longest_is_unique(t: Seq<LabelSpec>, haystack: Seq<u8>, i: int, j: int)
    requires
        labels_unique(t),
        is_longest_match(t, haystack, i),
        is_longest_match(t, haystack, j),
    ensures
        i == j,
{
    lemma_prefixes_of_one_length(t[i].label, t[j].label, haystack);
}

/// In a table without repeated labels the longest match is the entry that
/// `longest_match` reports.
pub proof fn lemma_longest_match_is(t: Seq<LabelSpec>, haystack: Seq<u8>, i: int)
    requires
        labels_unique(t),
        is_longest_match(t, haystack, i),
    ensures
        longest_match(t, haystack) == Some((t[i].unit, t[i].label.len())),
{
    let k = choose|k: int| is_longest_match(t, haystack, k);
    lemma_longest_is_unique(t, haystack, i, k);
}

/// In search order the first entry that matches is the longest that does.
pub proof fn lemma_first_is_longest(t: Seq<LabelSpec>, haystack: Seq<u8>, i: int)
    requires
        strictly_ordered(t),
        is_first_match(t, haystack, i),
    ensures
        is_longest_match(t, haystack, i),
{
    assert forall|j: int| matches_at(t, haystack, j) implies t[j].label.len()
        <= t[i].label.len() by {
        if j > i {
            assert(precedes(t[i].label, t[j].label));
        }
    }
}

/// In search order the longest entry that matches is the first that does.
pub proof fn lemma_longest_is_first(t: Seq<LabelSpec>, haystack: Seq<u8>, i: int)
    requires
        strictly_ordered(t),
        is_longest_match(t, haystack, i),
    ensures
        is_first_match(t, haystack, i),
{
    assert forall|j: int| 0 <= j < i implies !matches_at(t, haystack, j) by {
        if matches_at(t, haystack, j) {
            assert(precedes(t[j].label, t[i].label));
            lemma_prefixes_of_one_length(t[j].label, t[i].label, haystack);
            lemma_precedes_irreflexive(t[i].label);
        }
    }
}

/// Whether the haystack begins with the bytes of the pattern.
pub fn starts_with(haystack: &[u8], pattern: &[u8]) -> (begins: bool)
    ensures
        begins == pattern@.is_prefix_of(haystack@),
{
    if pattern.len() > haystack.len() {
        return false;
    }
    let mut i: usize = 0;
    while i < pattern.len()
        invariant
            pattern@.len() <= haystack@.len(),
            i <= pattern@.len(),
            forall|j: int| 0 <= j < i ==> pattern@[j] == haystack@[j],
        decreases pattern@.len() - i,
    {
        if pattern[i] != haystack[i] {
            assert(haystack@.subrange(0, pattern@.len() as int)[i as int] != pattern@[i as int]);
            return false;
        }
        i += 1;
    }
    assert(pattern@ =~= haystack@.subrange(0, pattern@.len() as int));
    true
}

/// One test of the procedure: the bytes to look for and what to report
/// where the buffer begins with them.
#[derive(Debug)]
struct Branch {
    pattern: Vec<u8>,
    found: MatchResult,
}

impl Branch {
    spec fn entry(self) -> LabelSpec {
        LabelSpec { label: self.pattern@, unit: self.found.unit }
    }

    spec fn consistent(self) -> bool {
        self.found.consumed == self.pattern@.len() && self.pattern@.len() > 0
    }
}

/// The dictionary compiled into a chain of tests in search order. It is
/// never changed once it is built, and `find` only reads it.
#[derive(Debug)]
pub struct DecisionProcedure {
    branches: Vec<Branch>,
}

impl View for DecisionProcedure {
    type V = Seq<LabelSpec>;

    closed spec fn view(&self) -> Seq<LabelSpec> {
        self.branches@.map_values(|b: Branch| b.entry())
    }
}

impl DecisionProcedure {
    #[verifier::type_invariant]
    spec fn well_formed(self) -> bool {
        &&& strictly_ordered(self@)
        &&& forall|i: int| 0 <= i < self.branches@.len() ==> (#[trigger] self.branches@[i]).consistent()
    }

    /// Builds the chain of tests for a dictionary in search order: one test
    /// for each entry, in that order.
    pub fn build(ordered: &OrderedTable) -> (procedure: DecisionProcedure)
        ensures
            procedure@ == ordered@,
            strictly_ordered(procedure@),
            nonempty_labels(procedure@),
    {
        proof {
            use_type_invariant(ordered);
        }
        let mut branches: Vec<Branch> = Vec::new();
        let mut i: usize = 0;
        loop
            invariant
                i <= ordered@.len(),
                branches@.len() == i,
                forall|k: int| 0 <= k < i ==> (#[trigger] branches@[k]).entry() == ordered@[k],
                forall|k: int| 0 <= k < i ==> (#[trigger] branches@[k]).consistent(),
            ensures
                i == ordered@.len(),
            decreases ordered@.len() - i,
        {
            let entry = match ordered.get(i) {
                Some(entry) => entry,
                None => {
                    break ;
                },
            };
            let label = entry.label();
            let found = MatchResult { unit: entry.unit(), consumed: label.len() };
            branches.push(Branch { pattern: vstd::slice::slice_to_vec(label), found });
            i += 1;
        }
        let procedure = DecisionProcedure { branches };
        assert(procedure@ =~= ordered@);
        procedure
    }

    /// The number of tests, which is the number of labels.
    pub fn len(&self) -> (n: usize)
        ensures
            n == self@.len(),
    {
        self.branches.len()
    }

    /// The label that test `i` looks for and the unit it reports, if there
    /// is such a test.
    pub fn branch(&self, i: usize) -> (test: Option<(&[u8], Unit)>)
        ensures
            test is Some <==> i < self@.len(),
            test matches Some((pattern, unit)) ==> pattern@ == self@[i as int].label && unit
                == self@[i as int].unit,
            self@.len() <= usize::MAX,
    {
        if i < self.branches.len() {
            let branch = &self.branches[i];
            Some((branch.pattern.as_slice(), branch.found.unit))
        } else {
            None
        }
    }

    /// Finds the designator at the start of the haystack: the longest label
    /// of the dictionary that the haystack begins with, which in search
    /// order is the first one. A haystack that begins with no label, an
    /// empty one included, gives `None`; that is no error.
    pub fn find(&self, haystack: &[u8]) -> (found: Option<MatchResult>)
        ensures
            outcome(found) == longest_match(self@, haystack@),
            found is None <==> no_match(self@, haystack@),
            found matches Some(m) ==> 0 < m.consumed <= haystack@.len(),
            found matches Some(m) ==> exists|i: int|
                is_first_match(self@, haystack@, i) && is_longest_match(self@, haystack@, i)
                    && m.unit == self@[i].unit && m.consumed == self@[i].label.len(),
            strictly_ordered(self@),
            nonempty_labels(self@),
    {
        proof {
            use_type_invariant(self);
        }
        let mut i: usize = 0;
        while i < self.branches.len()
            invariant
                self.well_formed(),
                i <= self.branches@.len(),
                forall|j: int| 0 <= j < i ==> !matches_at(self@, haystack@, j),
            decreases self.branches@.len() - i,
        {
            let branch = &self.branches[i];
            if starts_with(haystack, branch.pattern.as_slice()) {
                proof {
                    assert(branch.consistent());
                    assert(self@[i as int] == branch.entry());
                    assert(is_first_match(self@, haystack@, i as int));
                    lemma_first_is_longest(self@, haystack@, i as int);
                    lemma_ordered_is_unique(self@);
                    lemma_longest_match_is(self@, haystack@, i as int);
                }
                return Some(branch.found);
            }
            assert(self@[i as int] == branch.entry());
            i += 1;
        }
        assert(no_match(self@, haystack@));
        None
    }
}

/// Compiles a dictionary: puts it in search order and builds the chain of
/// tests. It fails if, and only if, a label occurs twice, as `normalize`
/// does.
pub fn compile(table: &LabelTable) -> (compiled: Result<DecisionProcedure, ConfigError>)
    ensures
        compiled is Ok <==> labels_unique(table@),
        compiled matches Ok(p) ==> strictly_ordered(p@) && p@.to_multiset()
            == table@.to_multiset(),
        compiled matches Err(ConfigError::DuplicateLabel { label }) ==> exists|j: int|
            crate::order::first_repeat(table@, j) && label@ == (#[trigger] table@[j]).label,
{
    match normalize(table) {
        Ok(ordered) => Ok(DecisionProcedure::build(&ordered)),
        Err(e) => Err(e),
    }
}

} // verus!
