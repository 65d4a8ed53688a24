//! How numbers, texts, names and times are written and read.

use vstd::prelude::*;

use crate::clock::{
    elapsed, instant_of, moment_text, reconcile_age, rfc3339_reading, rfc3339_writing, stale_age,
    stamp, stamps_back, valid_local_time, Instant, LocalTime,
};
use crate::error::{message_of, ErrorView};
use crate::schema::{id_at, slug, slug_char, strip_end, strip_start};
use crate::settings::{raw_machine_name, reap_hours};
use crate::text::{
    decimal, decimal_reads_back, digits_value, file_stem, filled_lines, has_extension, is_digit,
    last_dot_at, less_at, lines_of, number_of, records_of, text_less, text_less_irreflexive,
    text_less_transitive, trim, trim_end, trim_start, white_space,
};

verus! {

// ---- Numbers ------------------------------------------------------------------------------

/// The value of a row of decimal digits, each worth ten times the one after it.
pub open spec fn worth(s: Seq<char>) -> int
    decreases s.len(),
{
    if s.len() == 0 {
        0
    } else {
        10 * worth(s.drop_last()) + (s.last() as int - '0' as int)
    }
}

/// Whether a text is a row of one or more decimal digits.
pub open spec fn all_digits(s: Seq<char>) -> bool {
    &&& s.len() > 0
    &&& forall|i: int| 0 <= i < s.len() ==> '0' <= #[trigger] s[i] <= '9'
}

/// A number is written in decimal digits that are worth it, and starts with a zero only where it is
/// zero.
pub proof fn numbers_are_written_in_digits(n: nat)
    ensures
        all_digits(decimal(n)),
        worth(decimal(n)) == n,
        decimal(n)[0] == '0' <==> n == 0,
        n == 0 ==> decimal(n).len() == 1,
    decreases n,
{
    if n < 10 {
        reveal_with_fuel(worth, 2);
        assert(decimal(n).drop_last() =~= Seq::<char>::empty());
    } else {
        numbers_are_written_in_digits(n / 10);
        assert(decimal(n).drop_last() =~= decimal(n / 10));
    }
}

proof fn worth_of_digits(s: Seq<char>)
    requires
        forall|i: int| 0 <= i < s.len() ==> '0' <= #[trigger] s[i] <= '9',
    ensures
        worth(s) >= 0,
        worth(s) == digits_value(s),
    decreases s.len(),
{
    if s.len() > 0 {
        worth_of_digits(s.drop_last());
    }
}

/// A number is read from a row of decimal digits, after a plus sign or without one, that is worth at
/// most what 64 bits hold; it is the number they are worth. From no other text is a number read.
pub proof fn numbers_are_read_from_digits(s: Seq<char>)
    ensures
        all_digits(s) && worth(s) <= 18_446_744_073_709_551_615 ==> number_of(s) == Some(
            worth(s) as u64,
        ) && number_of(seq!['+'] + s) == Some(worth(s) as u64),
        all_digits(s) && worth(s) > 18_446_744_073_709_551_615 ==> number_of(s) is None
            && number_of(seq!['+'] + s) is None,
        !all_digits(s) && !(s.len() > 0 && s[0] == '+' && all_digits(s.skip(1))) ==> number_of(
            s,
        ) is None,
{
    assert((seq!['+'] + s).skip(1) =~= s);
    if all_digits(s) {
        assert('0' <= s[0] <= '9');
        worth_of_digits(s);
    }
    if !all_digits(s) && s.len() > 0 {
        let i = choose|i: int| 0 <= i < s.len() && !('0' <= #[trigger] s[i] <= '9');
        if s[0] == '+' {
            let d = s.skip(1);
            if d.len() > 0 && !all_digits(d) {
                let j = choose|j: int| 0 <= j < d.len() && !('0' <= #[trigger] d[j] <= '9');
                assert(!is_digit(d[j]));
            }
        } else {
            assert(!is_digit(s[i]));
        }
    }
}

/// Breadcrumbs are reaped after the hours that the setting names; after a day where nothing is set;
/// and not at all where it names zero or no number.
pub proof fn reap_hours_follow_the_setting(v: Seq<char>, hours: u64)
    ensures
        reap_hours(None) == Some(24u64),
        reap_hours(Some(decimal(hours as nat))) == (if hours == 0 {
            None::<u64>
        } else {
            Some(hours)
        }),
        number_of(v) matches Some(n) && n > 0 ==> reap_hours(Some(v)) == number_of(v),
        number_of(v) == Some(0u64) || number_of(v) is None ==> reap_hours(Some(v)) is None,
{
    decimal_reads_back(hours);
}

/// A machine goes by the first of its three names that is known, and is `unknown` where none is.
pub proof fn first_known_name_counts(
    first: Seq<char>,
    second: Option<Seq<char>>,
    third: Option<Seq<char>>,
)
    ensures
        raw_machine_name(Some(first), second, third) == first,
        raw_machine_name(None, Some(first), third) == first,
        raw_machine_name(None, None, Some(first)) == first,
        raw_machine_name(None, None, None) == "unknown"@,
{
}

// ---- The order of texts -------------------------------------------------------------------

/// Of two texts the one stands first whose character is smaller where they first differ; a text
/// stands before those that go on after it.
pub proof fn first_difference_decides(
    common: Seq<char>,
    c: char,
    d: char,
    rest: Seq<char>,
    other: Seq<char>,
)
    ensures
        text_less(common, common.push(c) + rest),
        !text_less(common.push(c) + rest, common),
        c < d ==> text_less(common.push(c) + rest, common.push(d) + other),
        c < d ==> !text_less(common.push(d) + other, common.push(c) + rest),
{
    let a = common.push(c) + rest;
    let b = common.push(d) + other;
    let n = common.len() as int;
    assert(a[n] == c && b[n] == d);
    assert(less_at(common, a, n));
    if text_less(a, common) {
        text_less_transitive(a, common, a);
        text_less_irreflexive(a);
    }
    if c < d {
        assert(less_at(a, b, n));
        if text_less(b, a) {
            text_less_transitive(a, b, a);
            text_less_irreflexive(a);
        }
    }
}

// ---- File names ---------------------------------------------------------------------------

/// Whether no dot stands in the text.
pub open spec fn undotted(s: Seq<char>) -> bool {
    forall|i: int| 0 <= i < s.len() ==> #[trigger] s[i] != '.'
}

/// What follows the last dot of a file name is its one extension, and what precedes that dot is its
/// stem. A name without a dot, or whose only dot starts it, has no extension and is its own stem.
pub proof fn last_dot_parts_file_names(stem: Seq<char>, ext: Seq<char>, other: Seq<char>)
    requires
        undotted(ext),
    ensures
        stem.len() > 0 ==> (has_extension(stem.push('.') + ext, other) <==> other == ext),
        stem.len() > 0 ==> file_stem(stem.push('.') + ext) == stem,
        !has_extension(ext, other),
        file_stem(ext) == ext,
        !has_extension(seq!['.'] + ext, other),
        file_stem(seq!['.'] + ext) == seq!['.'] + ext,
{
    let s = stem.push('.') + ext;
    let n = stem.len() as int;
    assert(s[n] == '.');
    assert forall|j: int| n < j < s.len() implies s[j] != '.' by {
        assert(s[j] == ext[j - n - 1]);
    }
    assert(last_dot_at(s, n));
    assert forall|k: int| last_dot_at(s, k) implies k == n by {
        if k < n {
            assert(s[n] == '.');
        }
    }
    assert(s.skip(n + 1) =~= ext);
    assert(s.take(n) =~= stem);
    assert forall|k: int| !last_dot_at(ext, k) by {}
    let t = seq!['.'] + ext;
    assert forall|k: int| k > 0 implies !last_dot_at(t, k) by {
        if last_dot_at(t, k) {
            assert(t[k] == ext[k - 1]);
        }
    }
}

// ---- Lines --------------------------------------------------------------------------------

proof fn lines_of_two(a: Seq<char>, b: Seq<char>)
    ensures
        lines_of(a.push('\n') + b) == lines_of(a) + lines_of(b),
        lines_of(b).len() > 0,
    decreases b.len(),
{
    let s = a.push('\n') + b;
    if b.len() == 0 {
        assert(s =~= a.push('\n'));
        assert(s.drop_last() =~= a);
        assert(lines_of(s) =~= lines_of(a) + lines_of(b));
    } else {
        let r = b.drop_last();
        lines_of_two(a, r);
        assert(s.drop_last() =~= a.push('\n') + r);
        assert(s.last() == b.last());
        let l = lines_of(a) + lines_of(r);
        if b.last() == '\n' {
            assert(lines_of(s) =~= lines_of(a) + lines_of(b));
        } else {
            assert(l.last() == lines_of(r).last());
            assert(l.drop_last() =~= lines_of(a) + lines_of(r).drop_last());
            assert(lines_of(s) =~= lines_of(a) + lines_of(b));
        }
    }
}

proof fn filled_of_two(a: Seq<Seq<char>>, b: Seq<Seq<char>>)
    ensures
        filled_lines(a + b) == filled_lines(a) + filled_lines(b),
    decreases b.len(),
{
    if b.len() == 0 {
        assert(a + b =~= a);
        assert(filled_lines(a) + filled_lines(b) =~= filled_lines(a));
    } else {
        filled_of_two(a, b.drop_last());
        assert((a + b).drop_last() =~= a + b.drop_last());
        assert((a + b).last() == b.last());
        assert(filled_lines(a + b) =~= filled_lines(a) + filled_lines(b));
    }
}

/// The records before a line end and those after it are all the records of a text.
pub proof fn records_end_with_lines(a: Seq<char>, b: Seq<char>)
    ensures
        records_of(a.push('\n') + b) == records_of(a) + records_of(b),
{
    lines_of_two(a, b);
    filled_of_two(lines_of(a), lines_of(b));
}

/// Whether a text holds white space alone.
pub open spec fn blank(s: Seq<char>) -> bool {
    forall|i: int| 0 <= i < s.len() ==> white_space(#[trigger] s[i])
}

/// Whether a text has a character, and no white space at either end.
pub open spec fn bare(s: Seq<char>) -> bool {
    s.len() > 0 && !white_space(s[0]) && !white_space(s.last())
}

proof fn start_is_trimmed(before: Seq<char>, s: Seq<char>)
    requires
        blank(before),
    ensures
        trim_start(before + s) == trim_start(s),
    decreases before.len(),
{
    if before.len() == 0 {
        assert(before + s =~= s);
    } else {
        assert(white_space(before[0]));
        assert((before + s)[0] == before[0]);
        assert((before + s).skip(1) =~= before.skip(1) + s);
        assert forall|i: int| 0 <= i < before.skip(1).len() implies white_space(
            #[trigger] before.skip(1)[i],
        ) by {
            assert(before.skip(1)[i] == before[i + 1]);
        }
        start_is_trimmed(before.skip(1), s);
    }
}

proof fn end_is_trimmed(s: Seq<char>, after: Seq<char>)
    requires
        blank(after),
    ensures
        trim_end(s + after) == trim_end(s),
    decreases after.len(),
{
    if after.len() == 0 {
        assert(s + after =~= s);
    } else {
        assert(white_space(after[after.len() - 1]));
        assert((s + after).last() == after.last());
        assert((s + after).drop_last() =~= s + after.drop_last());
        end_is_trimmed(s, after.drop_last());
    }
}

proof fn one_line(s: Seq<char>)
    requires
        forall|i: int| 0 <= i < s.len() ==> #[trigger] s[i] != '\n',
    ensures
        lines_of(s) == seq![s],
    decreases s.len(),
{
    if s.len() == 0 {
        assert(s =~= Seq::<char>::empty());
    } else {
        one_line(s.drop_last());
        assert(s[s.len() - 1] != '\n');
        assert(s.drop_last().push(s.last()) =~= s);
        assert(lines_of(s) =~= seq![s]);
    }
}

/// A line gives one record: what is on it between the white space around it. A blank line gives none.
pub proof fn line_is_one_record(before: Seq<char>, record: Seq<char>, after: Seq<char>)
    requires
        blank(before),
        blank(after),
        forall|i: int|
            0 <= i < (before + record + after).len() ==> #[trigger] (before + record + after)[i]
                != '\n',
    ensures
        bare(record) ==> records_of(before + record + after) == seq![record],
        record.len() == 0 ==> records_of(before + record + after) == Seq::<Seq<char>>::empty(),
{
    let s = before + record + after;
    one_line(s);
    reveal_with_fuel(filled_lines, 2);
    assert(seq![s].drop_last() =~= Seq::<Seq<char>>::empty());
    if bare(record) {
        assert(s =~= before + (record + after));
        start_is_trimmed(before, record + after);
        assert((record + after)[0] == record[0]);
        end_is_trimmed(record, after);
        assert(trim(s) == record);
        assert(records_of(s) =~= seq![record]);
    }
    if record.len() == 0 {
        let none = Seq::<char>::empty();
        assert(s =~= (before + after) + none);
        assert(blank(before + after));
        start_is_trimmed(before + after, none);
        assert(trim(s) == none);
        assert(records_of(s) =~= Seq::<Seq<char>>::empty());
    }
}

// ---- Identifiers --------------------------------------------------------------------------

/// Whether `r` is what stands for `c` in a slug: a small letter, digit, hyphen or underscore for
/// itself, a small letter for the capital one, an underscore for any other character.
pub open spec fn stands_for(r: char, c: char) -> bool {
    if 'a' <= c <= 'z' || '0' <= c <= '9' || c == '-' || c == '_' {
        r == c
    } else if 'A' <= c <= 'Z' {
        r as int - 'a' as int == c as int - 'A' as int
    } else {
        r == '_'
    }
}

/// Whether `s` stands for the characters of `name` from place `a` on: those before it and those cut
/// off at its end stand for underscores, and it has at most `max` of them.
pub open spec fn slug_from(name: Seq<char>, max: int, s: Seq<char>, a: int) -> bool {
    &&& 0 <= a && a + s.len() <= name.len()
    &&& 0 < s.len() <= max
    &&& forall|i: int| 0 <= i < a ==> stands_for('_', #[trigger] name[i])
    &&& forall|i: int| 0 <= i < s.len() ==> stands_for(#[trigger] s[i], name[a + i])
    &&& s[0] != '_' && s.last() != '_'
    &&& forall|i: int|
        a + s.len() <= i < name.len() && i < a + max ==> stands_for('_', #[trigger] name[i])
}

/// Whether the name has no character for a slug to start with, of those that `max` lets it have.
pub open spec fn no_slug(name: Seq<char>, max: int) -> bool {
    max == 0 || forall|i: int| 0 <= i < name.len() ==> stands_for('_', #[trigger] name[i])
}

proof fn stripped_start(s: Seq<char>) -> (a: int)
    ensures
        0 <= a <= s.len(),
        strip_start(s) == s.skip(a),
        forall|i: int| 0 <= i < a ==> #[trigger] s[i] == '_',
        a < s.len() ==> s[a] != '_',
    decreases s.len(),
{
    if s.len() > 0 && s[0] == '_' {
        let b = stripped_start(s.skip(1));
        assert(s.skip(1).skip(b) =~= s.skip(b + 1));
        assert forall|i: int| 0 <= i < b + 1 implies #[trigger] s[i] == '_' by {
            if i > 0 {
                assert(s.skip(1)[i - 1] == '_');
            }
        }
        b + 1
    } else {
        assert(s.skip(0) =~= s);
        0
    }
}

proof fn stripped_end(s: Seq<char>) -> (b: int)
    ensures
        0 <= b <= s.len(),
        strip_end(s) == s.take(b),
        forall|i: int| b <= i < s.len() ==> #[trigger] s[i] == '_',
        b > 0 ==> s[b - 1] != '_',
    decreases s.len(),
{
    if s.len() > 0 && s.last() == '_' {
        let r = s.drop_last();
        let b = stripped_end(r);
        assert(r.take(b) =~= s.take(b));
        assert forall|i: int| b <= i < s.len() implies #[trigger] s[i] == '_' by {
            if i < r.len() {
                assert(r[i] == '_');
            }
        }
        b
    } else {
        assert(s.take(s.len() as int) =~= s);
        s.len() as int
    }
}

/// The slug of a name stands for its characters, in order, but for those at either end that stand for
/// underscores and those past its greatest length; it is the word `operation` where none is left.
pub proof fn slug_stands_for_name(name: Seq<char>, max: int)
    requires
        max >= 0,
    ensures
        no_slug(name, max) ==> slug(name, max) == "operation"@,
        !no_slug(name, max) ==> exists|a: int| slug_from(name, max, slug(name, max), a),
{
    let mapped = name.map_values(|c: char| slug_char(c));
    assert forall|i: int| 0 <= i < name.len() implies stands_for(#[trigger] mapped[i], name[i]) by {}
    let a = stripped_start(mapped);
    let started = mapped.skip(a);
    let cut = if started.len() <= max {
        started
    } else {
        started.take(max)
    };
    let b = stripped_end(cut);
    let s = cut.take(b);
    if no_slug(name, max) {
        if max > 0 && a < mapped.len() {
            assert(stands_for('_', name[a]));
            assert(stands_for(mapped[a], name[a]));
        }
        assert(s.len() == 0);
    } else {
        if a == mapped.len() {
            assert forall|i: int| 0 <= i < name.len() implies stands_for('_', #[trigger] name[i]) by {
                assert(mapped[i] == '_');
            }
        }
        assert(cut.len() > 0 && cut[0] == mapped[a]);
        if b == 0 {
            assert(cut[0] == '_');
        }
        assert(slug(name, max) == s);
        assert forall|i: int| 0 <= i < a implies stands_for('_', #[trigger] name[i]) by {
            assert(mapped[i] == '_');
        }
        assert forall|i: int| 0 <= i < s.len() implies stands_for(#[trigger] s[i], name[a + i]) by {
            assert(s[i] == mapped[a + i]);
        }
        assert forall|i: int| a + s.len() <= i < name.len() && i < a + max implies stands_for(
            '_',
            #[trigger] name[i],
        ) by {
            assert(cut[i - a] == mapped[i]);
        }
        assert(slug_from(name, max, s, a));
    }
}

/// The identifier of a breadcrumb tells when it was started, in nanoseconds since the epoch, and
/// under which name, in at most forty characters.
pub proof fn id_tells_time_and_name(name: Seq<char>, t: Instant)
    ensures
        t.secs >= 0 && t.nanos >= 0 ==> id_at(name, t) == "bc_"@ + decimal(
            (t.secs * 1_000_000_000 + t.nanos) as nat,
        ) + "_"@ + slug(name, 40),
        t.secs < 0 ==> id_at(name, t) == "bc_"@ + decimal(0) + "_"@ + slug(name, 40),
{
}

// ---- Times --------------------------------------------------------------------------------

/// Outside leap seconds, the time between two instants is the difference of what they count.
pub proof fn elapsed_is_the_difference(now: Instant, since: Instant)
    requires
        0 <= now.nanos < 1_000_000_000,
        0 <= since.nanos < 1_000_000_000,
    ensures
        elapsed(now, since) == (now.secs * 1_000_000_000 + now.nanos) - (since.secs * 1_000_000_000
            + since.nanos),
{
}

/// A time stamp stands for the seconds and nanoseconds that are read from it, and for nothing where
/// none can be. A stamp that can be relied on reads back as its instant in the years 0 to 9999.
pub proof fn stamps_are_read_whole(s: Seq<char>, secs: i64, nanos: u32, t: Instant)
    ensures
        rfc3339_reading(s) == Some((secs, nanos)) ==> instant_of(s) == Some(
            Instant { secs: secs as int, nanos: nanos as int },
        ),
        rfc3339_reading(s) is None ==> instant_of(s) is None,
        t.secs == secs && t.nanos == nanos ==> stamp(t) == rfc3339_writing(secs, nanos),
        stamps_back(t) && -62_167_219_200 <= t.secs <= 253_402_300_799 && 0 <= t.nanos
            < 1_000_000_000 ==> instant_of(stamp(t)) == Some(t),
{
}

/// Four hours make a thing stale. It is ripe for reconciliation once it is older than the threshold
/// and than half an hour, and its age is told in whole hours.
pub proof fn ages_are_told_in_hours(nanos: int, hours: u64)
    ensures
        stale_age(Some(nanos)) <==> nanos >= 14_400_000_000_000,
        !stale_age(None),
        reconcile_age(Some(nanos), hours) is Some <==> nanos > hours as int * 3_600_000_000_000
            && nanos > 1_800_000_000_000,
        reconcile_age(Some(nanos), hours) matches Some(h) ==> h * 3_600_000_000_000 <= nanos < (h
            + 1) * 3_600_000_000_000,
        reconcile_age(None, hours) is None,
{
}

/// The name of a moment has the year in four digits, or in more after a sign, then month, day, hour,
/// minute and second in two digits each, with an underscore between the day and the hour.
pub proof fn moments_are_written_in_digits(t: LocalTime)
    requires
        valid_local_time(t),
        0 <= t.year <= 9_999,
    ensures
        ({
            let s = moment_text(t);
            &&& s.len() == 15
            &&& s[8] == '_'
            &&& all_digits(s.take(8)) && all_digits(s.skip(9))
            &&& worth(s.take(4)) == t.year
            &&& worth(s.subrange(4, 6)) == t.month
            &&& worth(s.subrange(6, 8)) == t.day
            &&& worth(s.subrange(9, 11)) == t.hour
            &&& worth(s.subrange(11, 13)) == t.minute
            &&& worth(s.subrange(13, 15)) == t.second
        }),
{
    let s = moment_text(t);
    worth_of_two(s.subrange(4, 6), t.month);
    worth_of_two(s.subrange(6, 8), t.day);
    worth_of_two(s.subrange(9, 11), t.hour);
    worth_of_two(s.subrange(11, 13), t.minute);
    worth_of_two(s.subrange(13, 15), t.second);
    worth_of_two(s.take(2), t.year / 100);
    let y = s.take(4);
    assert(y.drop_last().drop_last() =~= s.take(2));
    assert(y.last() == s[3] && y.drop_last().last() == s[2]);
    assert(worth(y) == 10 * worth(y.drop_last()) + (y.last() as int - '0' as int));
    assert(worth(y.drop_last()) == 10 * worth(y.drop_last().drop_last()) + (y.drop_last().last()
        as int - '0' as int));
}

proof fn worth_of_two(s: Seq<char>, n: int)
    requires
        0 <= n < 100,
        s.len() == 2,
        s[0] == (48 + n / 10) as char,
        s[1] == (48 + n % 10) as char,
    ensures
        worth(s) == n,
{
    reveal_with_fuel(worth, 3);
    assert(s.drop_last().drop_last().len() == 0);
    assert(s.drop_last().last() == s[0]);
}

// ---- Messages -----------------------------------------------------------------------------

/// A refusal says what went wrong, with the identifier, the count or the reason that it is about.
pub proof fn messages_name_the_matter(m: Seq<char>, n: nat)
    ensures
        message_of(ErrorView::Io(m)) == "I/O error: "@ + m,
        message_of(ErrorView::Serde(m)) == "serialization error: "@ + m,
        message_of(ErrorView::NotFound { id: m }) == "breadcrumb not found: "@ + m,
        message_of(ErrorView::NoActive) == "no active breadcrumb"@,
        message_of(ErrorView::Ambiguous { count: n }) == decimal(n)
            + " active breadcrumbs; a breadcrumb_id is needed"@,
        message_of(ErrorView::Other(m)) == m,
{
}

}
