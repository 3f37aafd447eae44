//! The standard dictionary: the designators that the duration parser
//! knows, several for each unit.

use vstd::prelude::*;
use vstd::pervasive::unreached;
use vstd::utf8::{decode_utf8, encode_utf8_decode_utf8};
use crate::matcher::{compile, DecisionProcedure};
use crate::order::strictly_ordered;
use crate::table::{labels_unique, text_entry, LabelSpec, LabelTable};
use crate::unit::Unit;

verus! {

/// The designators that denote a year.
pub open spec fn year_labels() -> Seq<LabelSpec> {
    seq![
        text_entry("years"@, Unit::Year),
        text_entry("year"@, Unit::Year),
        text_entry("yrs"@, Unit::Year),
        text_entry("yr"@, Unit::Year),
        text_entry("y"@, Unit::Year),
    ]
}

/// The designators that denote a month.
pub open spec fn month_labels() -> Seq<LabelSpec> {
    seq![
        text_entry("months"@, Unit::Month),
        text_entry("month"@, Unit::Month),
        text_entry("mos"@, Unit::Month),
        text_entry("mo"@, Unit::Month),
    ]
}

/// The designators that denote a week.
pub open spec fn week_labels() -> Seq<LabelSpec> {
    seq![
        text_entry("weeks"@, Unit::Week),
        text_entry("week"@, Unit::Week),
        text_entry("wks"@, Unit::Week),
        text_entry("wk"@, Unit::Week),
        text_entry("w"@, Unit::Week),
    ]
}

/// The designators that denote a day.
pub open spec fn day_labels() -> Seq<LabelSpec> {
    seq![
        text_entry("days"@, Unit::Day),
        text_entry("day"@, Unit::Day),
        text_entry("d"@, Unit::Day),
    ]
}

/// The designators that denote a hour.
pub open spec fn hour_labels() -> Seq<LabelSpec> {
    seq![
        text_entry("hours"@, Unit::Hour),
        text_entry("hour"@, Unit::Hour),
        text_entry("hrs"@, Unit::Hour),
        text_entry("hr"@, Unit::Hour),
        text_entry("h"@, Unit::Hour),
    ]
}

/// The designators that denote a minute.
pub open spec fn minute_labels() -> Seq<LabelSpec> {
    seq![
        text_entry("minutes"@, Unit::Minute),
        text_entry("minute"@, Unit::Minute),
        text_entry("mins"@, Unit::Minute),
        text_entry("min"@, Unit::Minute),
        text_entry("m"@, Unit::Minute),
    ]
}

/// The designators that denote a second.
pub open spec fn second_labels() -> Seq<LabelSpec> {
    seq![
        text_entry("seconds"@, Unit::Second),
        text_entry("second"@, Unit::Second),
        text_entry("secs"@, Unit::Second),
        text_entry("sec"@, Unit::Second),
        text_entry("s"@, Unit::Second),
    ]
}

/// The designators that denote a millisecond.
pub open spec fn millisecond_labels() -> Seq<LabelSpec> {
    seq![
        text_entry("milliseconds"@, Unit::Millisecond),
        text_entry("millisecond"@, Unit::Millisecond),
        text_entry("millis"@, Unit::Millisecond),
        text_entry("milli"@, Unit::Millisecond),
        text_entry("msecs"@, Unit::Millisecond),
        text_entry("msec"@, Unit::Millisecond),
        text_entry("ms"@, Unit::Millisecond),
    ]
}

/// The designators that denote a microsecond.
pub open spec fn microsecond_labels() -> Seq<LabelSpec> {
    seq![
        text_entry("microseconds"@, Unit::Microsecond),
        text_entry("microsecond"@, Unit::Microsecond),
        text_entry("micros"@, Unit::Microsecond),
        text_entry("micro"@, Unit::Microsecond),
        text_entry("usecs"@, Unit::Microsecond),
        text_entry("usec"@, Unit::Microsecond),
        text_entry("µsecs"@, Unit::Microsecond),
        text_entry("µsec"@, Unit::Microsecond),
        text_entry("us"@, Unit::Microsecond),
        text_entry("µs"@, Unit::Microsecond),
    ]
}

/// The designators that denote a nanosecond.
pub open spec fn nanosecond_labels() -> Seq<LabelSpec> {
    seq![
        text_entry("nanoseconds"@, Unit::Nanosecond),
        text_entry("nanosecond"@, Unit::Nanosecond),
        text_entry("nanos"@, Unit::Nanosecond),
        text_entry("nano"@, Unit::Nanosecond),
        text_entry("nsecs"@, Unit::Nanosecond),
        text_entry("nsec"@, Unit::Nanosecond),
        text_entry("ns"@, Unit::Nanosecond),
    ]
}

/// The standard dictionary, as it is listed: from years down to
/// nanoseconds.
pub open spec fn standard_labels() -> Seq<LabelSpec> {
    year_labels() + month_labels() + week_labels() + day_labels() + hour_labels()
        + minute_labels() + second_labels() + millisecond_labels() + microsecond_labels()
        + nanosecond_labels()
}

/// The text that the label of an entry spells.
spec fn spelled(entry: LabelSpec) -> Seq<char> {
    decode_utf8(entry.label)
}

/// The length of a text and its first three characters, which tell the
/// designators of the standard dictionary apart.
spec fn sketch(text: Seq<char>) -> (nat, char, char, char) {
    (text.len(), text[0], text[1], text[2])
}

/// The standard dictionary repeats no label.
pub proof fn lemma_standard_labels_unique()
    ensures
        labels_unique(standard_labels()),
{
    broadcast use encode_utf8_decode_utf8;

    reveal_strlit("years");
    reveal_strlit("year");
    reveal_strlit("yrs");
    reveal_strlit("yr");
    reveal_strlit("y");
    reveal_strlit("months");
    reveal_strlit("month");
    reveal_strlit("mos");
    reveal_strlit("mo");
    reveal_strlit("weeks");
    reveal_strlit("week");
    reveal_strlit("wks");
    reveal_strlit("wk");
    reveal_strlit("w");
    reveal_strlit("days");
    reveal_strlit("day");
    reveal_strlit("d");
    reveal_strlit("hours");
    reveal_strlit("hour");
    reveal_strlit("hrs");
    reveal_strlit("hr");
    reveal_strlit("h");
    reveal_strlit("minutes");
    reveal_strlit("minute");
    reveal_strlit("mins");
    reveal_strlit("min");
    reveal_strlit("m");
    reveal_strlit("seconds");
    reveal_strlit("second");
    reveal_strlit("secs");
    reveal_strlit("sec");
    reveal_strlit("s");
    reveal_strlit("milliseconds");
    reveal_strlit("millisecond");
    reveal_strlit("millis");
    reveal_strlit("milli");
    reveal_strlit("msecs");
    reveal_strlit("msec");
    reveal_strlit("ms");
    reveal_strlit("microseconds");
    reveal_strlit("microsecond");
    reveal_strlit("micros");
    reveal_strlit("micro");
    reveal_strlit("usecs");
    reveal_strlit("usec");
    reveal_strlit("µsecs");
    reveal_strlit("µsec");
    reveal_strlit("us");
    reveal_strlit("µs");
    reveal_strlit("nanoseconds");
    reveal_strlit("nanosecond");
    reveal_strlit("nanos");
    reveal_strlit("nano");
    reveal_strlit("nsecs");
    reveal_strlit("nsec");
    reveal_strlit("ns");
    let t = standard_labels();
    assert(t.len() == 56);
    assert forall|i: int, j: int| 0 <= i < t.len() && 0 <= j < t.len() && i != j implies (
    #[trigger] t[i]).label != (#[trigger] t[j]).label by {
        assert(sketch(spelled(t[i])) != sketch(spelled(t[j])));
    }
}

fn add_year_labels(table: &mut LabelTable)
    ensures
        final(table)@ == old(table)@ + year_labels(),
{
    proof {
        reveal_strlit("years");
        reveal_strlit("year");
        reveal_strlit("yrs");
        reveal_strlit("yr");
        reveal_strlit("y");
    }
    table.add("years", Unit::Year);
    table.add("year", Unit::Year);
    table.add("yrs", Unit::Year);
    table.add("yr", Unit::Year);
    table.add("y", Unit::Year);
    assert(table@ =~= old(table)@ + year_labels());
}

fn add_month_labels(table: &mut LabelTable)
    ensures
        final(table)@ == old(table)@ + month_labels(),
{
    proof {
        reveal_strlit("months");
        reveal_strlit("month");
        reveal_strlit("mos");
        reveal_strlit("mo");
    }
    table.add("months", Unit::Month);
    table.add("month", Unit::Month);
    table.add("mos", Unit::Month);
    table.add("mo", Unit::Month);
    assert(table@ =~= old(table)@ + month_labels());
}

fn add_week_labels(table: &mut LabelTable)
    ensures
        final(table)@ == old(table)@ + week_labels(),
{
    proof {
        reveal_strlit("weeks");
        reveal_strlit("week");
        reveal_strlit("wks");
        reveal_strlit("wk");
        reveal_strlit("w");
    }
    table.add("weeks", Unit::Week);
    table.add("week", Unit::Week);
    table.add("wks", Unit::Week);
    table.add("wk", Unit::Week);
    table.add("w", Unit::Week);
    assert(table@ =~= old(table)@ + week_labels());
}

fn add_day_labels(table: &mut LabelTable)
    ensures
        final(table)@ == old(table)@ + day_labels(),
{
    proof {
        reveal_strlit("days");
        reveal_strlit("day");
        reveal_strlit("d");
    }
    table.add("days", Unit::Day);
    table.add("day", Unit::Day);
    table.add("d", Unit::Day);
    assert(table@ =~= old(table)@ + day_labels());
}

fn add_hour_labels(table: &mut LabelTable)
    ensures
        final(table)@ == old(table)@ + hour_labels(),
{
    proof {
        reveal_strlit("hours");
        reveal_strlit("hour");
        reveal_strlit("hrs");
        reveal_strlit("hr");
        reveal_strlit("h");
    }
    table.add("hours", Unit::Hour);
    table.add("hour", Unit::Hour);
    table.add("hrs", Unit::Hour);
    table.add("hr", Unit::Hour);
    table.add("h", Unit::Hour);
    assert(table@ =~= old(table)@ + hour_labels());
}

fn add_minute_labels(table: &mut LabelTable)
    ensures
        final(table)@ == old(table)@ + minute_labels(),
{
    proof {
        reveal_strlit("minutes");
        reveal_strlit("minute");
        reveal_strlit("mins");
        reveal_strlit("min");
        reveal_strlit("m");
    }
    table.add("minutes", Unit::Minute);
    table.add("minute", Unit::Minute);
    table.add("mins", Unit::Minute);
    table.add("min", Unit::Minute);
    table.add("m", Unit::Minute);
    assert(table@ =~= old(table)@ + minute_labels());
}

fn add_second_labels(table: &mut LabelTable)
    ensures
        final(table)@ == old(table)@ + second_labels(),
{
    proof {
        reveal_strlit("seconds");
        reveal_strlit("second");
        reveal_strlit("secs");
        reveal_strlit("sec");
        reveal_strlit("s");
    }
    table.add("seconds", Unit::Second);
    table.add("second", Unit::Second);
    table.add("secs", Unit::Second);
    table.add("sec", Unit::Second);
    table.add("s", Unit::Second);
    assert(table@ =~= old(table)@ + second_labels());
}

fn add_millisecond_labels(table: &mut LabelTable)
    ensures
        final(table)@ == old(table)@ + millisecond_labels(),
{
    proof {
        reveal_strlit("milliseconds");
        reveal_strlit("millisecond");
        reveal_strlit("millis");
        reveal_strlit("milli");
        reveal_strlit("msecs");
        reveal_strlit("msec");
        reveal_strlit("ms");
    }
    table.add("milliseconds", Unit::Millisecond);
    table.add("millisecond", Unit::Millisecond);
    table.add("millis", Unit::Millisecond);
    table.add("milli", Unit::Millisecond);
    table.add("msecs", Unit::Millisecond);
    table.add("msec", Unit::Millisecond);
    table.add("ms", Unit::Millisecond);
    assert(table@ =~= old(table)@ + millisecond_labels());
}

fn add_microsecond_labels(table: &mut LabelTable)
    ensures
        final(table)@ == old(table)@ + microsecond_labels(),
{
    proof {
        reveal_strlit("microseconds");
        reveal_strlit("microsecond");
        reveal_strlit("micros");
        reveal_strlit("micro");
        reveal_strlit("usecs");
        reveal_strlit("usec");
        reveal_strlit("µsecs");
        reveal_strlit("µsec");
        reveal_strlit("us");
        reveal_strlit("µs");
    }
    table.add("microseconds", Unit::Microsecond);
    table.add("microsecond", Unit::Microsecond);
    table.add("micros", Unit::Microsecond);
    table.add("micro", Unit::Microsecond);
    table.add("usecs", Unit::Microsecond);
    table.add("usec", Unit::Microsecond);
    table.add("µsecs", Unit::Microsecond);
    table.add("µsec", Unit::Microsecond);
    table.add("us", Unit::Microsecond);
    table.add("µs", Unit::Microsecond);
    assert(table@ =~= old(table)@ + microsecond_labels());
}

fn add_nanosecond_labels(table: &mut LabelTable)
    ensures
        final(table)@ == old(table)@ + nanosecond_labels(),
{
    proof {
        reveal_strlit("nanoseconds");
        reveal_strlit("nanosecond");
        reveal_strlit("nanos");
        reveal_strlit("nano");
        reveal_strlit("nsecs");
        reveal_strlit("nsec");
        reveal_strlit("ns");
    }
    table.add("nanoseconds", Unit::Nanosecond);
    table.add("nanosecond", Unit::Nanosecond);
    table.add("nanos", Unit::Nanosecond);
    table.add("nano", Unit::Nanosecond);
    table.add("nsecs", Unit::Nanosecond);
    table.add("nsec", Unit::Nanosecond);
    table.add("ns", Unit::Nanosecond);
    assert(table@ =~= old(table)@ + nanosecond_labels());
}

/// The standard dictionary as a table.
pub fn table() -> (table: LabelTable)
    ensures
        table@ == standard_labels(),
{
    let mut table = LabelTable::new();
    assert(table@ + year_labels() =~= year_labels());
    add_year_labels(&mut table);
    add_month_labels(&mut table);
    add_week_labels(&mut table);
    add_day_labels(&mut table);
    add_hour_labels(&mut table);
    add_minute_labels(&mut table);
    add_second_labels(&mut table);
    add_millisecond_labels(&mut table);
    add_microsecond_labels(&mut table);
    add_nanosecond_labels(&mut table);
    table
}

/// The standard dictionary compiled. It repeats no label, so there is
/// always a procedure for it.
pub fn procedure() -> (procedure: DecisionProcedure)
    ensures
        strictly_ordered(procedure@),
        procedure@.to_multiset() == standard_labels().to_multiset(),
        labels_unique(standard_labels()),
{
    proof {
        lemma_standard_labels_unique();
    }
    match compile(&table()) {
        Ok(procedure) => procedure,
        Err(_) => unreached(),
    }
}

} // verus!
