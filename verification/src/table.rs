//! The dictionary of unit designator labels.

use vstd::prelude::*;
use vstd::slice::slice_to_vec;
use vstd::string::StringSliceAdditionalSpecFns;
use vstd::utf8::encode_utf8;
use crate::unit::Unit;

verus! {

/// What a dictionary entry is: the bytes of a label and the unit it denotes.
pub struct LabelSpec {
    pub label: Seq<u8>,
    pub unit: Unit,
}

/// The entry that a label written as text stands for: its UTF-8 bytes, as
/// they are, with the given unit.
pub open spec fn text_entry(label: Seq<char>, unit: Unit) -> LabelSpec {
    LabelSpec { label: encode_utf8(label), unit }
}

/// Every label has at least one byte.
pub open spec fn nonempty_labels(t: Seq<LabelSpec>) -> bool {
    forall|i: int| 0 <= i < t.len() ==> (#[trigger] t[i]).label.len() > 0
}

/// No two entries carry the same label bytes.
pub open spec fn labels_unique(t: Seq<LabelSpec>) -> bool {
    forall|i: int, j: int|
        0 <= i < t.len() && 0 <= j < t.len() && i != j ==> (#[trigger] t[i]).label != (
        #[trigger] t[j]).label
}

/// The UTF-8 encoding of a non-empty text is not empty.
pub proof fn lemma_encoding_nonempty(text: Seq<char>)
    requires
        text.len() > 0,
    ensures
        encode_utf8(text).len() > 0,
{
}

/// One entry of the dictionary. Its label is never empty and is compared
/// byte for byte.
#[derive(Debug)]
pub struct LabelEntry {
    label: Vec<u8>,
    unit: Unit,
}

impl View for LabelEntry {
    type V = LabelSpec;

    closed spec fn view(&self) -> LabelSpec {
        LabelSpec { label: self.label@, unit: self.unit }
    }
}

impl LabelEntry {
    #[verifier::type_invariant]
    spec fn has_bytes(self) -> bool {
        self.label@.len() > 0
    }

    /// Makes an entry from raw label bytes; an empty label is no entry.
    pub fn new(label: Vec<u8>, unit: Unit) -> (entry: Option<LabelEntry>)
        ensures
            entry is Some <==> label@.len() > 0,
            entry matches Some(e) ==> e@ == (LabelSpec { label: label@, unit }),
    {
        if label.len() == 0 {
            None
        } else {
            Some(LabelEntry { label, unit })
        }
    }

    /// Makes an entry from a label written as text, taking its UTF-8 bytes.
    pub fn from_text(label: &str, unit: Unit) -> (entry: Option<LabelEntry>)
        ensures
            entry is Some <==> label@.len() > 0,
            entry matches Some(e) ==> e@ == text_entry(label@, unit),
    {
        proof {
            if label@.len() > 0 {
                lemma_encoding_nonempty(label@);
            }
        }
        LabelEntry::new(slice_to_vec(label.as_bytes()), unit)
    }

    /// The bytes of the label.
    pub fn label(&self) -> (bytes: &[u8])
        ensures
            bytes@ == self@.label,
            bytes@.len() > 0,
    {
        proof {
            use_type_invariant(self);
        }
        self.label.as_slice()
    }

    /// The unit that the label denotes.
    pub fn unit(&self) -> (unit: Unit)
        ensures
            unit == self@.unit,
    {
        self.unit
    }

    /// A second entry with the same label and unit.
    pub fn duplicate(&self) -> (copy: LabelEntry)
        ensures
            copy@ == self@,
    {
        proof {
            use_type_invariant(self);
        }
        LabelEntry { label: slice_to_vec(self.label.as_slice()), unit: self.unit }
    }
}

/// The dictionary as it is configured, before it is put in order.
#[derive(Debug)]
pub struct LabelTable {
    entries: Vec<LabelEntry>,
}

impl View for LabelTable {
    type V = Seq<LabelSpec>;

    closed spec fn view(&self) -> Seq<LabelSpec> {
        self.entries@.map_values(|e: LabelEntry| e@)
    }
}

impl LabelTable {
    /// A table without entries.
    pub fn new() -> (table: LabelTable)
        ensures
            table@ == Seq::<LabelSpec>::empty(),
    {
        let table = LabelTable { entries: Vec::new() };
        assert(table@ =~= Seq::<LabelSpec>::empty());
        table
    }

    /// Appends an entry. Nothing is compared here: a label that is already
    /// in the table is found when the table is put in order.
    pub fn push(&mut self, entry: LabelEntry)
        ensures
            final(self)@ == old(self)@.push(entry@),
    {
        self.entries.push(entry);
        assert(self@ =~= old(self)@.push(entry@));
    }

    /// Appends the entry for a label written as text. An empty label is not
    /// added, and the result says so.
    pub fn add(&mut self, label: &str, unit: Unit) -> (added: bool)
        ensures
            added <==> label@.len() > 0,
            added ==> final(self)@ == old(self)@.push(text_entry(label@, unit)),
            !added ==> final(self)@ == old(self)@,
    {
        match LabelEntry::from_text(label, unit) {
            Some(entry) => {
                self.push(entry);
                true
            },
            None => false,
        }
    }

    /// The number of entries.
    pub fn len(&self) -> (n: usize)
        ensures
            n == self@.len(),
    {
        self.entries.len()
    }

    /// The entry at position `i`, if there is one.
    pub fn get(&self, i: usize) -> (entry: Option<&LabelEntry>)
        ensures
            entry is Some <==> i < self@.len(),
            entry matches Some(e) ==> e@ == self@[i as int],
            self@.len() <= usize::MAX,
    {
        if i < self.entries.len() {
            Some(&self.entries[i])
        } else {
            None
        }
    }
}

} // verus!
