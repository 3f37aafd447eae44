//! The decision procedure written out as Rust source: one `match` arm for
//! each label, in search order, for embedding into the host project.

use vstd::prelude::*;
use crate::matcher::DecisionProcedure;
use crate::table::LabelSpec;

verus! {

/// The digits of base sixteen, in lower case.
pub open spec fn hex_digits() -> Seq<char> {
    "0123456789abcdef"@
}

/// A byte as it is written inside a Rust byte literal: tab, carriage
/// return, line feed, both quotes and the backslash behind a backslash,
/// the other printable ASCII bytes as they are, and every other byte as
/// `\x` and two hexadecimal digits.
pub open spec fn escape_text(byte: u8) -> Seq<char> {
    if byte == 0x09 {
        "\\t"@
    } else if byte == 0x0d {
        "\\r"@
    } else if byte == 0x0a {
        "\\n"@
    } else if byte == 0x27 {
        "\\'"@
    } else if byte == 0x22 {
        "\\\""@
    } else if byte == 0x5c {
        "\\\\"@
    } else if 0x20 <= byte <= 0x7e {
        seq![byte as char]
    } else {
        "\\x"@ + seq![hex_digits()[byte as int / 16], hex_digits()[byte as int % 16]]
    }
}

/// A byte as a Rust byte literal.
pub open spec fn byte_literal_text(byte: u8) -> Seq<char> {
    "b'"@ + escape_text(byte) + "'"@
}

/// The byte literals of a label, each followed by a comma and a space.
pub open spec fn pattern_text(label: Seq<u8>) -> Seq<char>
    decreases label.len(),
{
    if label.len() == 0 {
        Seq::empty()
    } else {
        pattern_text(label.drop_last()) + byte_literal_text(label.last()) + ", "@
    }
}

/// The decimal digits of a number.
pub open spec fn decimal_text(n: nat) -> Seq<char>
    decreases n,
{
    if n < 10 {
        seq![hex_digits()[n as int]]
    } else {
        decimal_text(n / 10).push(hex_digits()[(n % 10) as int])
    }
}

/// The `match` arm of one entry: a slice pattern that begins with the
/// bytes of the label, and the unit and the length of the label as result.
pub open spec fn arm_text(entry: LabelSpec) -> Seq<char> {
    "    &["@ + pattern_text(entry.label) + "..] => Some((Unit::"@ + entry.unit.name_text()
        + ", "@ + decimal_text(entry.label.len()) + ")),\n"@
}

/// The arms of the entries of a table, in the order of the table.
pub open spec fn arms_text(t: Seq<LabelSpec>) -> Seq<char>
    decreases t.len(),
{
    if t.len() == 0 {
        Seq::empty()
    } else {
        arms_text(t.drop_last()) + arm_text(t.last())
    }
}

/// What stands before the arms.
pub open spec fn prologue_text() -> Seq<char> {
    "// auto-generated by: jiff-cli generate unit-designator-match\n\nuse crate::Unit;\n\n#[inline(always)]\npub(super) fn find(haystack: &[u8]) -> Option<(Unit, usize)> {\n  match haystack {\n"@
}

/// What stands behind the arms: the arm for a haystack that begins with no
/// label.
pub open spec fn epilogue_text() -> Seq<char> {
    "  _ => None,\n  }\n}\n"@
}

/// The source of the `find` function for a table in search order.
pub open spec fn source_text(t: Seq<LabelSpec>) -> Seq<char> {
    prologue_text() + arms_text(t) + epilogue_text()
}

/// Escapes a byte with `std::ascii::escape_default` and collects the
/// result in a string.
///
/// The contract restates the rules that the documentation of that function
/// gives, with the hexadecimal digits in lower case as its example shows.
#[verifier::external_body]
fn escaped(byte: u8) -> (text: String)
    ensures
        text@ == escape_text(byte),
{
    std::ascii::escape_default(byte).to_string()
}

/// A byte as a Rust byte literal, such as `b'm'` or `b'\xc2'`.
pub fn byte_literal(byte: u8) -> (text: String)
    ensures
        text@ == byte_literal_text(byte),
{
    let mut text = String::from_str("b'");
    text.append(escaped(byte).as_str());
    text.append("'");
    text
}

/// One decimal digit.
fn digit(d: usize) -> (text: &'static str)
    requires
        d < 10,
    ensures
        text@ == seq![hex_digits()[d as int]],
{
    proof {
        reveal_strlit("0123456789abcdef");
        reveal_strlit("0");
        reveal_strlit("1");
        reveal_strlit("2");
        reveal_strlit("3");
        reveal_strlit("4");
        reveal_strlit("5");
        reveal_strlit("6");
        reveal_strlit("7");
        reveal_strlit("8");
        reveal_strlit("9");
    }
    let text = if d == 0 {
        "0"
    } else if d == 1 {
        "1"
    } else if d == 2 {
        "2"
    } else if d == 3 {
        "3"
    } else if d == 4 {
        "4"
    } else if d == 5 {
        "5"
    } else if d == 6 {
        "6"
    } else if d == 7 {
        "7"
    } else if d == 8 {
        "8"
    } else {
        "9"
    };
    assert(text@ =~= seq![hex_digits()[d as int]]);
    text
}

/// A number in decimal digits.
pub fn decimal(n: usize) -> (text: String)
    ensures
        text@ == decimal_text(n as nat),
    decreases n,
{
    if n < 10 {
        String::from_str(digit(n))
    } else {
        let mut text = decimal(n / 10);
        text.append(digit(n % 10));
        assert(text@ =~= decimal_text(n as nat));
        text
    }
}

/// The byte literals of a label, each followed by a comma and a space.
pub fn pattern(label: &[u8]) -> (text: String)
    ensures
        text@ == pattern_text(label@),
{
    let mut text = String::new();
    let mut i: usize = 0;
    while i < label.len()
        invariant
            i <= label@.len(),
            text@ == pattern_text(label@.take(i as int)),
        decreases label@.len() - i,
    {
        text.append(byte_literal(label[i]).as_str());
        text.append(", ");
        proof {
            let next = label@.take(i + 1);
            assert(next.drop_last() =~= label@.take(i as int));
            assert(next.last() == label@[i as int]);
        }
        i += 1;
    }
    assert(label@.take(i as int) =~= label@);
    text
}

/// Writes the procedure out as the source of a `find` function: a `match`
/// on the haystack with one arm for each label, in search order, and a
/// last arm that gives `None`.
pub fn render(procedure: &DecisionProcedure) -> (source: String)
    ensures
        source@ == source_text(procedure@),
{
    let mut source = String::from_str(
        "// auto-generated by: jiff-cli generate unit-designator-match\n\nuse crate::Unit;\n\n#[inline(always)]\npub(super) fn find(haystack: &[u8]) -> Option<(Unit, usize)> {\n  match haystack {\n",
    );
    let mut i: usize = 0;
    loop
        invariant
            i <= procedure@.len(),
            source@ == prologue_text() + arms_text(procedure@.take(i as int)),
        ensures
            i == procedure@.len(),
        decreases procedure@.len() - i,
    {
        let (label, unit) = match procedure.branch(i) {
            Some(test) => test,
            None => {
                break ;
            },
        };
        source.append("    &[");
        source.append(pattern(label).as_str());
        source.append("..] => Some((Unit::");
        source.append(unit.name().as_str());
        source.append(", ");
        source.append(decimal(label.len()).as_str());
        source.append(")),\n");
        proof {
            let next = procedure@.take(i + 1);
            assert(next.drop_last() =~= procedure@.take(i as int));
            assert(next.last() == procedure@[i as int]);
            assert(source@ =~= prologue_text() + arms_text(next));
        }
        i += 1;
    }
    assert(procedure@.take(i as int) =~= procedure@);
    source.append("  _ => None,\n  }\n}\n");
    source
}

} // verus!
