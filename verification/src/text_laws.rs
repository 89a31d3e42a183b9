//! What the texts say that the logger puts together, for all that they are put together from.

use crate::color::{colorize, colorized, SpanColor};
use crate::level::{is_within, within, Level};
use crate::outside::{shown_time, Clock};
use crate::recorder::{FieldRecorder, RecorderView};
use crate::text::{append_decimal, decimal, digit, done, done_text};
use std::cmp::Ordering;
use std::ops::RangeInclusive;
use vstd::prelude::*;
use vstd::std_specs::cmp::PartialOrdSpec;
use vstd::std_specs::range::RangeInclusiveView;

verus! {

/// The character is one of the ten decimal digits.
pub open spec fn is_digit(c: char) -> bool {
    '0' <= c <= '9'
}

/// The number that a text reads as in base ten, digit by digit.
pub open spec fn read_decimal(text: Seq<char>) -> int
    decreases text.len(),
{
    if text.len() == 0 {
        0
    } else {
        10 * read_decimal(text.drop_last()) + (text.last() as int - '0' as int)
    }
}

/// A number is written with decimal digits and without a leading zero, and reads as that number.
pub proof fn law_numbers_can_be_read_back(n: nat)
    ensures
        decimal(n).len() > 0,
        forall|i: int| 0 <= i < decimal(n).len() ==> is_digit(#[trigger] decimal(n)[i]),
        decimal(n)[0] == '0' ==> n == 0 && decimal(n).len() == 1,
        read_decimal(decimal(n)) == n,
    decreases n,
{
    if n < 10 {
        assert(decimal(n).drop_last() =~= Seq::empty());
        assert(read_decimal(Seq::empty()) == 0);
        assert(digit(n) as int == '0' as int + n);
    } else {
        law_numbers_can_be_read_back(n / 10);
        assert(decimal(n).drop_last() =~= decimal(n / 10));
        assert(digit(n % 10) as int == '0' as int + n % 10);
        assert forall|i: int| 0 <= i < decimal(n).len() implies is_digit(#[trigger] decimal(n)[i]) by {
            if i < decimal(n / 10).len() {
                assert(decimal(n)[i] == decimal(n / 10)[i]);
            }
        }
        assert(decimal(n)[0] == decimal(n / 10)[0]);
    }
}

/// A number that is appended to a text can be read back from behind the text.
pub proof fn law_appended_numbers_can_be_read_back(text: &mut String, n: u64)
    requires
        call_ensures(append_decimal, (text, n), ()),
    ensures
        final(text)@.len() > old(text)@.len(),
        final(text)@.take(old(text)@.len() as int) == old(text)@,
        read_decimal(final(text)@.skip(old(text)@.len() as int)) == n,
        forall|i: int|
            old(text)@.len() <= i < final(text)@.len() ==> is_digit(#[trigger] final(text)@[i]),
        final(text)@[old(text)@.len() as int] == '0' ==> n == 0,
{
    law_numbers_can_be_read_back(n as nat);
    assert(final(text)@.take(old(text)@.len() as int) =~= old(text)@);
    assert(final(text)@.skip(old(text)@.len() as int) =~= decimal(n as nat));
    assert forall|i: int| old(text)@.len() <= i < final(text)@.len() implies is_digit(
        #[trigger] final(text)@[i],
    ) by {
        assert(final(text)@[i] == decimal(n as nat)[i - old(text)@.len()]);
    }
    assert(final(text)@[old(text)@.len() as int] == decimal(n as nat)[0]);
}

/// The text is `done(`, a number in decimal digits without a leading zero, and ` us)`, and the number
/// is `micros`.
pub open spec fn tells_time(text: Seq<char>, micros: int) -> bool {
    &&& text.len() > 9
    &&& text.take(5) == seq!['d', 'o', 'n', 'e', '(']
    &&& text.skip(text.len() - 4) == seq![' ', 'u', 's', ')']
    &&& forall|i: int| 5 <= i < text.len() - 4 ==> is_digit(#[trigger] text[i])
    &&& text[5] == '0' ==> text.len() == 10
    &&& read_decimal(text.subrange(5, text.len() - 4)) == micros
}

/// The report on the end of a span tells the time that it is given, to the microsecond.
pub proof fn law_done_text_tells_the_time(micros: nat)
    ensures
        tells_time(done_text(micros), micros as int),
{
    reveal_strlit("done(");
    reveal_strlit(" us)");
    law_numbers_can_be_read_back(micros);
    let text = done_text(micros);
    assert(text.take(5) =~= seq!['d', 'o', 'n', 'e', '(']);
    assert(text.skip(text.len() - 4) =~= seq![' ', 'u', 's', ')']);
    assert(text.subrange(5, text.len() - 4) =~= decimal(micros));
    assert forall|i: int| 5 <= i < text.len() - 4 implies is_digit(#[trigger] text[i]) by {
        assert(text[i] == decimal(micros)[i - 5]);
    }
}

/// The report on the end of a span tells the time that it is given, to the microsecond; so two
/// different times give two different reports.
pub proof fn law_done_tells_the_time(a: u64, b: u64, first: String, second: String)
    requires
        call_ensures(done, (a,), first),
        call_ensures(done, (b,), second),
    ensures
        tells_time(first@, a as int),
        first@ == second@ <==> a == b,
{
    law_done_text_tells_the_time(a as nat);
    law_done_text_tells_the_time(b as nat);
}

/// The recorder after the fields were recorded, in order, starting with nothing.
pub open spec fn recorder_after(fields: Seq<(Seq<char>, Seq<char>)>) -> RecorderView
    decreases fields.len(),
{
    if fields.len() == 0 {
        RecorderView::empty()
    } else {
        recorder_after(fields.drop_last()).recorded(fields.last().0, fields.last().1)
    }
}

/// The value that was last given under the name `message`; nothing, if there is none.
pub open spec fn last_message(fields: Seq<(Seq<char>, Seq<char>)>) -> Seq<char>
    decreases fields.len(),
{
    if fields.len() == 0 {
        Seq::empty()
    } else if fields.last().0 == seq!['m', 'e', 's', 's', 'a', 'g', 'e'] {
        fields.last().1
    } else {
        last_message(fields.drop_last())
    }
}

/// The fields with other names.
pub open spec fn other_fields(fields: Seq<(Seq<char>, Seq<char>)>) -> Seq<(Seq<char>, Seq<char>)> {
    fields.filter(|field: (Seq<char>, Seq<char>)| field.0 != seq!['m', 'e', 's', 's', 'a', 'g', 'e'])
}

/// The fields as `name=value`, with a comma and a space between any two.
pub open spec fn listed(fields: Seq<(Seq<char>, Seq<char>)>) -> Seq<char>
    decreases fields.len(),
{
    if fields.len() == 0 {
        Seq::empty()
    } else if fields.len() == 1 {
        fields[0].0 + seq!['='] + fields[0].1
    } else {
        listed(fields.drop_last()) + seq![',', ' '] + fields.last().0 + seq!['='] + fields.last().1
    }
}

/// The text of any sequence of fields: the last message, if there is one, and then the other fields in
/// their order, each as `name=value`, with commas between them and in brackets, or a dot if there are
/// none. What a field contributes does not depend on the message.
pub proof fn law_text_of_recorded_fields(fields: Seq<(Seq<char>, Seq<char>)>)
    ensures
        other_fields(fields).len() == 0 ==> recorder_after(fields).text() == last_message(fields)
            + seq!['.'],
        other_fields(fields).len() > 0 ==> recorder_after(fields).text() == last_message(fields)
            + seq!['('] + listed(other_fields(fields)) + seq![')'],
{
    lemma_recorder_after(fields);
    reveal_strlit("(");
    reveal_strlit(")");
    reveal_strlit(".");
    let text = recorder_after(fields).text();
    if other_fields(fields).len() == 0 {
        assert(text =~= last_message(fields) + seq!['.']);
    } else {
        assert(text =~= last_message(fields) + seq!['('] + listed(other_fields(fields)) + seq![')']);
    }
}

/// What a recorder holds of a sequence of fields.
proof fn lemma_recorder_after(fields: Seq<(Seq<char>, Seq<char>)>)
    ensures
        recorder_after(fields).message matches Some(message) ==> message == last_message(fields),
        recorder_after(fields).message is None ==> last_message(fields).len() == 0,
        other_fields(fields).len() == 0 <==> recorder_after(fields).fields is None,
        recorder_after(fields).fields matches Some(text) ==> text == listed(other_fields(fields)),
    decreases fields.len(),
{
    let keep = |field: (Seq<char>, Seq<char>)|
        field.0 != seq!['m', 'e', 's', 's', 'a', 'g', 'e'];
    reveal(Seq::filter);
    if fields.len() > 0 {
        let before = fields.drop_last();
        let (name, value) = fields.last();
        lemma_recorder_after(before);
        reveal_strlit("message");
        reveal_strlit("=");
        reveal_strlit(", ");
        assert("message"@ =~= seq!['m', 'e', 's', 's', 'a', 'g', 'e']);
        if name == "message"@ {
            assert(other_fields(fields) == other_fields(before));
        } else {
            assert(other_fields(fields) == other_fields(before).push((name, value)));
            assert(other_fields(fields).drop_last() =~= other_fields(before));
            assert(recorder_after(fields).fields->0 =~= listed(other_fields(fields)));
        }
    }
}

/// Recording one field: the message is replaced, or else `name=value` is appended to the other fields,
/// whatever the recorder holds; the rest stays.
pub proof fn law_recording_a_field(recorder: &mut FieldRecorder, name: &str, value: String)
    requires
        call_ensures(FieldRecorder::record, (recorder, name, value), ()),
    ensures
        name@ == seq!['m', 'e', 's', 's', 'a', 'g', 'e'] ==> {
            &&& final(recorder)@.message == Some(value@)
            &&& final(recorder)@.fields == old(recorder)@.fields
        },
        name@ != seq!['m', 'e', 's', 's', 'a', 'g', 'e'] ==> {
            &&& final(recorder)@.message == old(recorder)@.message
            &&& final(recorder)@.fields == Some(
                (match old(recorder)@.fields {
                    Some(earlier) => earlier + seq![',', ' '],
                    None => Seq::empty(),
                }) + name@ + seq!['='] + value@,
            )
        },
{
    reveal_strlit("message");
    reveal_strlit("=");
    reveal_strlit(", ");
    assert("message"@ =~= seq!['m', 'e', 's', 's', 'a', 'g', 'e']);
    if name@ != "message"@ {
        let text = (match old(recorder)@.fields {
            Some(earlier) => earlier + seq![',', ' '],
            None => Seq::empty(),
        }) + name@ + seq!['='] + value@;
        assert(final(recorder)@.fields->0 =~= text);
    }
}

/// A new recorder holds nothing, and setting the message leaves the other fields alone.
pub proof fn law_recorder_starts_empty(
    new: FieldRecorder,
    recorder: &mut FieldRecorder,
    message: String,
)
    requires
        call_ensures(FieldRecorder::new, (), new),
        call_ensures(FieldRecorder::set_message, (recorder, message), ()),
    ensures
        new@.message is None,
        new@.fields is None,
        final(recorder)@.message == Some(message@),
        final(recorder)@.fields == old(recorder)@.fields,
{
}

/// Both ways to get the text of a recorder give the message, if any, and then the fields in brackets,
/// or a dot.
pub proof fn law_text_of_a_recorder(recorder: FieldRecorder, text: String, same: String)
    requires
        call_ensures(FieldRecorder::to_string, (recorder,), text),
        call_ensures(FieldRecorder::fmt, (&recorder,), same),
    ensures
        text@ == same@,
        text@ == (match recorder@.message {
            Some(message) => message,
            None => Seq::empty(),
        }) + (match recorder@.fields {
            Some(fields) => seq!['('] + fields + seq![')'],
            None => seq!['.'],
        }),
{
    reveal_strlit("(");
    reveal_strlit(")");
    reveal_strlit(".");
    assert("("@ =~= seq!['(']);
    assert(")"@ =~= seq![')']);
    assert("."@ =~= seq!['.']);
}

/// The levels from the least verbose to the most verbose one.
pub open spec fn levels_in_order() -> Seq<Level> {
    seq![Level::Error, Level::Warn, Level::Info, Level::Debug, Level::Trace]
}

/// The level lies between the start and the end of the range, in the order of the list.
pub open spec fn is_between(levels: RangeInclusiveView<Level>, level: Level) -> bool {
    let start = levels_in_order().index_of(levels.start);
    let end = levels_in_order().index_of(levels.end);
    let i = levels_in_order().index_of(level);
    start <= i && (i < end || i == end && !levels.exhausted)
}

/// Where a level is in the list.
proof fn lemma_index_of_level(i: int)
    requires
        0 <= i < 5,
    ensures
        levels_in_order().index_of(levels_in_order()[i]) == i,
{
    let list = levels_in_order();
    let found = list.index_of(list[i]);
    assert(list.contains(list[i]));
    assert(0 <= found < 5 && list[found] == list[i]);
}

/// A range holds exactly the levels between its start and its end.
pub proof fn law_range_of_levels(levels: RangeInclusiveView<Level>, level: Level)
    ensures
        within(levels, level) == is_between(levels, level),
{
    lemma_index_of_level(0);
    lemma_index_of_level(1);
    lemma_index_of_level(2);
    lemma_index_of_level(3);
    lemma_index_of_level(4);
    assert(levels_in_order()[0] == Level::Error);
    assert(levels_in_order()[1] == Level::Warn);
    assert(levels_in_order()[2] == Level::Info);
    assert(levels_in_order()[3] == Level::Debug);
    assert(levels_in_order()[4] == Level::Trace);
}

/// Of two levels, the one that comes later in the list is the greater one, and more verbose.
pub proof fn law_levels_are_ordered(i: int, j: int, a: u8, b: u8)
    requires
        0 <= i < 5,
        0 <= j < 5,
        call_ensures(Level::verbosity, (&levels_in_order()[i],), a),
        call_ensures(Level::verbosity, (&levels_in_order()[j],), b),
    ensures
        a < b <==> i < j,
        levels_in_order()[i].partial_cmp_spec(&levels_in_order()[j]) == Some(
            if i < j {
                Ordering::Less
            } else if i == j {
                Ordering::Equal
            } else {
                Ordering::Greater
            },
        ),
{
}

/// A range of levels holds exactly the levels from its start up to its end.
pub proof fn law_levels_within_a_range(
    levels: RangeInclusive<Level>,
    start: int,
    end: int,
    i: int,
    inside: bool,
)
    requires
        0 <= start < 5,
        0 <= end < 5,
        0 <= i < 5,
        levels@.start == levels_in_order()[start],
        levels@.end == levels_in_order()[end],
        call_ensures(is_within, (&levels, levels_in_order()[i]), inside),
    ensures
        !levels@.exhausted ==> (inside <==> start <= i <= end),
        levels@.exhausted ==> (inside <==> start <= i < end),
        inside == within(levels@, levels_in_order()[i]),
{
}

/// The colors in the order in which they are given out, and then over again.
pub proof fn law_colors_in_turn(count: usize, color: SpanColor)
    requires
        call_ensures(SpanColor::from_count, (count,), color),
    ensures
        count % 6 == 0 ==> color == SpanColor::BrightBlue,
        count % 6 == 1 ==> color == SpanColor::BrightCyan,
        count % 6 == 2 ==> color == SpanColor::BrightMagenta,
        count % 6 == 3 ==> color == SpanColor::Yellow,
        count % 6 == 4 ==> color == SpanColor::BrightGreen,
        count % 6 == 5 ==> color == SpanColor::Red,
        color == SpanColor::of_count(count),
{
}

/// The two digits of the escape code of a color.
pub open spec fn color_digits(color: SpanColor) -> (char, char) {
    match color {
        SpanColor::BrightBlue => ('9', '4'),
        SpanColor::BrightCyan => ('9', '6'),
        SpanColor::BrightMagenta => ('9', '5'),
        SpanColor::Yellow => ('3', '3'),
        SpanColor::BrightGreen => ('9', '2'),
        SpanColor::Red => ('3', '1'),
    }
}

/// `shown` is the text, or else, if there is a color, the text between the escape codes that switch to
/// the color and back to the default.
pub open spec fn is_text_in_color(
    color: Option<SpanColor>,
    text: Seq<char>,
    shown: Seq<char>,
) -> bool {
    shown == text || (color matches Some(color) && shown == seq![
        '\u{1b}',
        '[',
        color_digits(color).0,
        color_digits(color).1,
        'm',
    ] + text + seq!['\u{1b}', '[', '3', '9', 'm'])
}

/// A text in a color is the text as it is or between the escape codes.
pub proof fn law_text_in_color(color: Option<SpanColor>, text: Seq<char>, shown: Seq<char>)
    requires
        colorized(color, text, shown),
    ensures
        is_text_in_color(color, text, shown),
        color is None ==> shown == text,
{
    reveal_strlit("\u{1b}[94m");
    reveal_strlit("\u{1b}[96m");
    reveal_strlit("\u{1b}[95m");
    reveal_strlit("\u{1b}[33m");
    reveal_strlit("\u{1b}[92m");
    reveal_strlit("\u{1b}[31m");
    reveal_strlit("\u{1b}[39m");
    if let Some(color) = color {
        let digits = color_digits(color);
        assert(color.start_code() =~= seq!['\u{1b}', '[', digits.0, digits.1, 'm']);
        assert("\u{1b}[39m"@ =~= seq!['\u{1b}', '[', '3', '9', 'm']);
    }
}

/// Coloring a message keeps its text, and adds at most the escape codes of the color.
pub proof fn law_coloring_keeps_the_text(
    color: Option<SpanColor>,
    message: String,
    shown: String,
)
    requires
        call_ensures(colorize, (color, message), shown),
    ensures
        is_text_in_color(color, message@, shown@),
        color is None ==> shown@ == message@,
{
    law_text_in_color(color, message@, shown@);
}

/// A clock starts at ten, and goes on by one for each microsecond that elapses, until it has used up its
/// sixty-four bits and starts over.
pub proof fn law_clock_counts_microseconds(elapsed: u128, start: u64, now: u64, next: u64)
    requires
        elapsed < u128::MAX,
        call_ensures(Clock::show, (0,), start),
        call_ensures(Clock::show, (elapsed,), now),
        call_ensures(Clock::show, ((elapsed + 1) as u128,), next),
    ensures
        start == 10,
        now < u64::MAX ==> next == now + 1,
        now == u64::MAX ==> next == 0,
        elapsed + 10 <= u64::MAX ==> now == elapsed + 10,
        now == shown_time(elapsed),
{
}

} // verus!
