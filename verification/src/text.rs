//! Text: numbers in decimal, the order of texts, file names and lines.

use vstd::prelude::*;
use vstd::string::*;

verus! {

/// `String::push`: appends one character.
pub assume_specification[ String::push ](s: &mut String, c: char)
    ensures
        final(s)@ == old(s)@.push(c),
;

/// `==` on `str`: two texts are equal exactly when they hold the same characters.
pub assume_specification[ <str as PartialEq>::eq ](s: &str, other: &str) -> (res: bool)
    ensures
        res == (s@ == other@),
;

/// Whether a character has the Unicode property `White_Space`.
pub open spec fn white_space(c: char) -> bool {
    let n = c as int;
    ||| 0x9 <= n <= 0xd
    ||| n == 0x20
    ||| n == 0x85
    ||| n == 0xa0
    ||| n == 0x1680
    ||| 0x2000 <= n <= 0x200a
    ||| n == 0x2028
    ||| n == 0x2029
    ||| n == 0x202f
    ||| n == 0x205f
    ||| n == 0x3000
}

/// `char::is_whitespace`: tells the characters with the property `White_Space`.
pub assume_specification[ char::is_whitespace ](c: char) -> (b: bool)
    ensures
        b == white_space(c),
;

/// The characters of `s`, in order.
pub fn chars_of(s: &str) -> (v: Vec<char>)
    ensures
        v@ == s@,
{
    let mut v: Vec<char> = Vec::new();
    for c in it: s.chars()
        invariant
            it.seq() == s@,
            v@ == s@.take(it.index()),
    {
        v.push(c);
        assert(s@.take(it.index() + 1) =~= s@.take(it.index()).push(c));
    }
    assert(s@.take(s@.len() as int) =~= s@);
    v
}

/// The text of the characters from `from` up to `to`.
pub fn text_between(chars: &Vec<char>, from: usize, to: usize) -> (s: String)
    requires
        from <= to <= chars@.len(),
    ensures
        s@ == chars@.subrange(from as int, to as int),
{
    let mut s = String::new();
    for i in from..to
        invariant
            from <= to <= chars@.len(),
            s@ == chars@.subrange(from as int, i as int),
    {
        s.push(chars[i]);
        assert(chars@.subrange(from as int, i + 1) =~= chars@.subrange(from as int, i as int).push(
            chars@[i as int],
        ));
    }
    s
}

/// `a` followed by `b`.
pub fn concat(a: &str, b: &str) -> (s: String)
    ensures
        s@ == a@ + b@,
{
    let mut s = a.to_owned();
    s.append(b);
    s
}

/// A copy of an optional text.
pub fn copy_option(s: &Option<String>) -> (r: Option<String>)
    ensures
        r == *s,
{
    match s {
        Some(t) => Some(t.clone()),
        None => None,
    }
}

/// A copy of a list of texts.
pub fn copy_texts(v: &Vec<String>) -> (r: Vec<String>)
    ensures
        r@ == v@,
        r.deep_view() == v.deep_view(),
{
    let mut r: Vec<String> = Vec::new();
    for i in 0..v.len()
        invariant
            r@ == v@.take(i as int),
    {
        r.push(v[i].clone());
        assert(v@.take(i + 1) =~= v@.take(i as int).push(v@[i as int]));
    }
    assert(v@.take(v@.len() as int) =~= v@);
    assert(r.deep_view() =~= v.deep_view());
    r
}

// ---- Decimal numbers ----------------------------------------------------------------------

/// The digit of a number below ten.
pub open spec fn digit(d: int) -> char {
    (48 + d) as char
}

/// Whether `c` is one of the ten ASCII digits.
pub open spec fn is_digit(c: char) -> bool {
    '0' <= c <= '9'
}

/// A number written in decimal, without leading zeros.
pub open spec fn decimal(n: nat) -> Seq<char>
    decreases n,
{
    if n < 10 {
        seq![digit(n as int)]
    } else {
        decimal(n / 10).push(digit((n % 10) as int))
    }
}

/// The number that a row of digits stands for.
pub open spec fn digits_value(s: Seq<char>) -> nat
    decreases s.len(),
{
    if s.len() == 0 {
        0
    } else {
        digits_value(s.drop_last()) * 10 + (s.last() as int - 48) as nat
    }
}

/// The text without one leading plus sign.
pub open spec fn unsigned_part(s: Seq<char>) -> Seq<char> {
    if s.len() > 0 && s[0] == '+' {
        s.skip(1)
    } else {
        s
    }
}

/// The number that a text stands for: digits, after an optional plus sign, that fit in 64 bits.
pub open spec fn number_of(s: Seq<char>) -> Option<u64> {
    let digits = unsigned_part(s);
    if digits.len() == 0 || exists|i: int| 0 <= i < digits.len() && !is_digit(#[trigger] digits[i]) {
        None
    } else if digits_value(digits) > u64::MAX {
        None
    } else {
        Some(digits_value(digits) as u64)
    }
}

fn digit_char(d: u128) -> (c: char)
    requires
        d < 10,
    ensures
        c == digit(d as int),
{
    if d == 0 {
        '0'
    } else if d == 1 {
        '1'
    } else if d == 2 {
        '2'
    } else if d == 3 {
        '3'
    } else if d == 4 {
        '4'
    } else if d == 5 {
        '5'
    } else if d == 6 {
        '6'
    } else if d == 7 {
        '7'
    } else if d == 8 {
        '8'
    } else {
        '9'
    }
}

/// Writes a number in decimal.
pub fn to_decimal(n: u128) -> (s: String)
    ensures
        s@ == decimal(n as nat),
    decreases n,
{
    if n < 10 {
        let mut s = String::new();
        s.push(digit_char(n));
        assert(s@ =~= seq![digit(n as int)]);
        s
    } else {
        let mut s = to_decimal(n / 10);
        s.push(digit_char(n % 10));
        s
    }
}

/// Reads a number as `u64` is read from text.
pub fn parse_number(s: &str) -> (r: Option<u64>)
    ensures
        r == number_of(s@),
{
    let chars = chars_of(s);
    let mut start: usize = 0;
    if chars.len() > 0 && chars[0] == '+' {
        start = 1;
    }
    let ghost digits = unsigned_part(s@);
    assert(digits =~= chars@.skip(start as int));
    if start == chars.len() {
        return None;
    }
    let mut value: u64 = 0;
    let mut over: bool = false;
    for i in start..chars.len()
        invariant
            start <= 1,
            start <= chars@.len(),
            chars@ == s@,
            digits == unsigned_part(s@),
            digits == chars@.skip(start as int),
            forall|j: int| 0 <= j < i - start ==> is_digit(#[trigger] digits[j]),
            over ==> digits_value(digits.take(i - start)) > u64::MAX,
            !over ==> digits_value(digits.take(i - start)) == value,
    {
        let c = chars[i];
        let ghost k = i - start;
        proof {
            assert(digits[k] == c);
            assert(digits.take(k + 1).drop_last() =~= digits.take(k));
            assert(digits.take(k + 1).last() == c);
        }
        if c < '0' || '9' < c {
            assert(!is_digit(digits[k]));
            return None;
        }
        let d: u64 = (c as u32 - 48) as u64;
        if !over {
            match value.checked_mul(10) {
                Some(tens) => match tens.checked_add(d) {
                    Some(v) => {
                        value = v;
                    },
                    None => {
                        over = true;
                    },
                },
                None => {
                    over = true;
                },
            }
        }
    }
    assert(digits.take(digits.len() as int) =~= digits);
    if over {
        None
    } else {
        Some(value)
    }
}

/// Every number is written with at least one digit, and with digits only.
pub proof fn decimal_has_digits_only(n: nat)
    ensures
        decimal(n).len() >= 1,
        forall|i: int| 0 <= i < decimal(n).len() ==> is_digit(#[trigger] decimal(n)[i]),
    decreases n,
{
    if n >= 10 {
        decimal_has_digits_only(n / 10);
    }
}

proof fn decimal_value(n: nat)
    ensures
        digits_value(decimal(n)) == n,
    decreases n,
{
    if n < 10 {
        assert(decimal(n).drop_last() =~= Seq::<char>::empty());
        reveal_with_fuel(digits_value, 2);
    } else {
        decimal_value(n / 10);
        assert(decimal(n).drop_last() =~= decimal(n / 10));
    }
}

/// Different numbers are written differently.
pub proof fn decimal_injective(a: nat, b: nat)
    requires
        decimal(a) == decimal(b),
    ensures
        a == b,
{
    decimal_value(a);
    decimal_value(b);
}

/// Reading the decimal text of a number gives the number back.
pub proof fn decimal_reads_back(n: u64)
    ensures
        number_of(decimal(n as nat)) == Some(n),
{
    decimal_has_digits_only(n as nat);
    decimal_value(n as nat);
    assert(is_digit(decimal(n as nat)[0]));
    assert(unsigned_part(decimal(n as nat)) == decimal(n as nat));
}

// ---- The order of texts -------------------------------------------------------------------

/// Whether `a` and `b` part at place `i`, with `a` before `b` there.
pub open spec fn less_at(a: Seq<char>, b: Seq<char>, i: int) -> bool {
    &&& 0 <= i <= a.len()
    &&& i < b.len()
    &&& forall|j: int| 0 <= j < i ==> a[j] == b[j]
    &&& i == a.len() || a[i] < b[i]
}

/// Whether `a` stands before `b` in the dictionary order of their characters.
pub open spec fn text_less(a: Seq<char>, b: Seq<char>) -> bool {
    exists|i: int| less_at(a, b, i)
}

/// Whether `a` stands before `b`.
pub fn is_text_less(a: &str, b: &str) -> (r: bool)
    ensures
        r == text_less(a@, b@),
{
    let x = chars_of(a);
    let y = chars_of(b);
    let mut i: usize = 0;
    while i < x.len() && i < y.len() && x[i] == y[i]
        invariant
            x@ == a@,
            y@ == b@,
            i <= x@.len(),
            i <= y@.len(),
            forall|j: int| 0 <= j < i ==> x@[j] == y@[j],
        decreases x@.len() - i,
    {
        i += 1;
    }
    if i < y.len() && (i == x.len() || x[i] < y[i]) {
        assert(less_at(a@, b@, i as int));
        true
    } else {
        assert forall|k: int| !less_at(a@, b@, k) by {
            if less_at(a@, b@, k) {
                if k < i {
                    assert(x@[k] == y@[k]);
                } else if k > i {
                    assert(a@[i as int] == b@[i as int]);
                }
            }
        }
        false
    }
}

/// No text stands before itself.
pub proof fn text_less_irreflexive(a: Seq<char>)
    ensures
        !text_less(a, a),
{
}

/// Of two different texts, one stands before the other.
pub proof fn text_less_total(a: Seq<char>, b: Seq<char>)
    ensures
        a == b || text_less(a, b) || text_less(b, a),
    decreases a.len(),
{
    if a.len() == 0 {
        if b.len() == 0 {
            assert(a =~= b);
        } else {
            assert(less_at(a, b, 0));
        }
    } else if b.len() == 0 {
        assert(less_at(b, a, 0));
    } else if a[0] < b[0] {
        assert(less_at(a, b, 0));
    } else if b[0] < a[0] {
        assert(less_at(b, a, 0));
    } else {
        let ta = a.skip(1);
        let tb = b.skip(1);
        text_less_total(ta, tb);
        if ta == tb {
            assert(a =~= seq![a[0]] + ta);
            assert(b =~= seq![b[0]] + tb);
        } else if text_less(ta, tb) {
            let i = choose|i: int| less_at(ta, tb, i);
            assert forall|j: int| 0 <= j < i + 1 implies a[j] == b[j] by {
                if j > 0 {
                    assert(ta[j - 1] == tb[j - 1]);
                }
            }
            assert(less_at(a, b, i + 1));
        } else {
            let i = choose|i: int| less_at(tb, ta, i);
            assert forall|j: int| 0 <= j < i + 1 implies b[j] == a[j] by {
                if j > 0 {
                    assert(tb[j - 1] == ta[j - 1]);
                }
            }
            assert(less_at(b, a, i + 1));
        }
    }
}

/// The order of texts is transitive.
pub proof fn text_less_transitive(a: Seq<char>, b: Seq<char>, c: Seq<char>)
    requires
        text_less(a, b),
        text_less(b, c),
    ensures
        text_less(a, c),
{
    let i = choose|i: int| less_at(a, b, i);
    let j = choose|j: int| less_at(b, c, j);
    if i <= j {
        assert(less_at(a, c, i)) by {
            if i < j {
                assert(b[i] == c[i]);
            }
        }
    } else {
        assert(less_at(a, c, j));
    }
}

// ---- File names ---------------------------------------------------------------------------

/// Whether the last dot of the file name `s` stands at place `i`.
pub open spec fn last_dot_at(s: Seq<char>, i: int) -> bool {
    &&& 0 <= i < s.len()
    &&& s[i] == '.'
    &&& forall|j: int| i < j < s.len() ==> s[j] != '.'
}

/// Whether the file name `s` has the extension `ext`: what follows its last dot, where that dot
/// does not start the name.
pub open spec fn has_extension(s: Seq<char>, ext: Seq<char>) -> bool {
    exists|i: int| i > 0 && #[trigger] last_dot_at(s, i) && s.skip(i + 1) == ext
}

/// Whether the file name `s` has the extension `ext`.
pub fn is_extension_of(s: &str, ext: &str) -> (r: bool)
    ensures
        r == has_extension(s@, ext@),
{
    let chars = chars_of(s);
    let mut i: usize = chars.len();
    while i > 1
        invariant
            chars@ == s@,
            i <= chars@.len(),
            forall|j: int| i <= j < chars@.len() ==> chars@[j] != '.',
        decreases i,
    {
        if chars[i - 1] == '.' {
            assert(last_dot_at(s@, i - 1));
            assert(forall|k: int| last_dot_at(s@, k) ==> k == i - 1);
            let tail = text_between(&chars, i, chars.len());
            assert(tail@ =~= s@.skip(i as int));
            return *tail.as_str() == *ext;
        }
        i -= 1;
    }
    assert forall|k: int| k > 0 implies !last_dot_at(s@, k) by {}
    false
}

/// The file name `stem` with the extension `json`.
pub open spec fn json_name(stem: Seq<char>) -> Seq<char> {
    stem + ".json"@
}

/// The file name `stem` with the extension `json`.
pub fn to_json_name(stem: &str) -> (s: String)
    ensures
        s@ == json_name(stem@),
{
    concat(stem, ".json")
}

/// A file name that is made of a stem and `.json` has the extension `json`, unless the stem is
/// empty.
pub proof fn json_name_has_extension(stem: Seq<char>)
    requires
        stem.len() > 0,
    ensures
        has_extension(json_name(stem), "json"@),
{
    reveal_strlit(".json");
    reveal_strlit("json");
    let s = json_name(stem);
    assert(last_dot_at(s, stem.len() as int));
    assert(s.skip(stem.len() as int + 1) =~= "json"@);
}

/// Two file names that are made of a stem and `.json` are equal only if the stems are.
pub proof fn json_name_injective(a: Seq<char>, b: Seq<char>)
    requires
        json_name(a) == json_name(b),
    ensures
        a == b,
{
    let n = ".json"@.len();
    assert(json_name(a).len() == a.len() + n);
    assert(json_name(b).len() == b.len() + n);
    assert(json_name(a).take(a.len() as int) =~= a);
    assert(json_name(b).take(b.len() as int) =~= b);
}

/// The file name without its extension: what precedes the last dot, where that dot does not start
/// the name.
pub open spec fn file_stem(s: Seq<char>) -> Seq<char> {
    if exists|i: int| i > 0 && last_dot_at(s, i) {
        s.take(choose|i: int| i > 0 && last_dot_at(s, i))
    } else {
        s
    }
}

/// The file name without its extension.
pub fn to_file_stem(s: &str) -> (r: String)
    ensures
        r@ == file_stem(s@),
{
    let chars = chars_of(s);
    let mut i: usize = chars.len();
    while i > 1
        invariant
            chars@ == s@,
            i <= chars@.len(),
            forall|j: int| i <= j < chars@.len() ==> chars@[j] != '.',
        decreases i,
    {
        if chars[i - 1] == '.' {
            assert(last_dot_at(s@, i - 1));
            assert(forall|k: int| last_dot_at(s@, k) ==> k == i - 1);
            let r = text_between(&chars, 0, i - 1);
            assert(r@ =~= s@.take(i - 1));
            return r;
        }
        i -= 1;
    }
    assert forall|k: int| k > 0 implies !last_dot_at(s@, k) by {}
    s.to_owned()
}

/// The stem of a file name that is made of a stem and `.json` is that stem.
pub proof fn json_name_stem(stem: Seq<char>)
    requires
        stem.len() > 0,
    ensures
        file_stem(json_name(stem)) == stem,
{
    reveal_strlit(".json");
    let s = json_name(stem);
    assert(last_dot_at(s, stem.len() as int));
    let i = choose|i: int| i > 0 && last_dot_at(s, i);
    assert(i == stem.len());
    assert(s.take(i) =~= stem);
}

// ---- Lines --------------------------------------------------------------------------------

/// The pieces of a text between its line ends.
pub open spec fn lines_of(s: Seq<char>) -> Seq<Seq<char>>
    decreases s.len(),
{
    if s.len() == 0 {
        seq![Seq::<char>::empty()]
    } else {
        let lines = lines_of(s.drop_last());
        if s.last() == '\n' {
            lines.push(Seq::<char>::empty())
        } else {
            lines.drop_last().push(lines.last().push(s.last()))
        }
    }
}

/// The text without the white space at its start.
pub open spec fn trim_start(s: Seq<char>) -> Seq<char>
    decreases s.len(),
{
    if s.len() > 0 && white_space(s[0]) {
        trim_start(s.skip(1))
    } else {
        s
    }
}

/// The text without the white space at its end.
pub open spec fn trim_end(s: Seq<char>) -> Seq<char>
    decreases s.len(),
{
    if s.len() > 0 && white_space(s.last()) {
        trim_end(s.drop_last())
    } else {
        s
    }
}

/// The text without the white space around it.
pub open spec fn trim(s: Seq<char>) -> Seq<char> {
    trim_end(trim_start(s))
}

/// The lines that hold more than white space, each without the white space around it.
pub open spec fn filled_lines(lines: Seq<Seq<char>>) -> Seq<Seq<char>>
    decreases lines.len(),
{
    if lines.len() == 0 {
        Seq::empty()
    } else {
        let before = filled_lines(lines.drop_last());
        let line = trim(lines.last());
        if line.len() == 0 {
            before
        } else {
            before.push(line)
        }
    }
}

/// The records of a text that holds one record per line.
pub open spec fn records_of(s: Seq<char>) -> Seq<Seq<char>> {
    filled_lines(lines_of(s))
}

/// The characters from `from` up to `to`, without the white space around them.
fn trimmed_between(chars: &Vec<char>, from: usize, to: usize) -> (s: String)
    requires
        from <= to <= chars@.len(),
    ensures
        s@ == trim(chars@.subrange(from as int, to as int)),
{
    let mut a: usize = from;
    while a < to && chars[a].is_whitespace()
        invariant
            from <= a <= to <= chars@.len(),
            trim_start(chars@.subrange(from as int, to as int)) == trim_start(
                chars@.subrange(a as int, to as int),
            ),
        decreases to - a,
    {
        assert(chars@.subrange(a as int, to as int).skip(1) =~= chars@.subrange(a + 1, to as int));
        a += 1;
    }
    let ghost started = chars@.subrange(a as int, to as int);
    assert(trim_start(chars@.subrange(from as int, to as int)) == started);
    let mut b: usize = to;
    while a < b && chars[b - 1].is_whitespace()
        invariant
            a <= b <= to <= chars@.len(),
            trim_end(started) == trim_end(chars@.subrange(a as int, b as int)),
        decreases b,
    {
        assert(chars@.subrange(a as int, b as int).drop_last() =~= chars@.subrange(
            a as int,
            b - 1,
        ));
        b -= 1;
    }
    text_between(chars, a, b)
}

/// Splits a text into its records: one per line, blank lines left out, the white space around a
/// record left out.
pub fn split_records(content: &str) -> (r: Vec<String>)
    ensures
        r.deep_view() == records_of(content@),
{
    let chars = chars_of(content);
    let mut out: Vec<String> = Vec::new();
    let mut start: usize = 0;
    assert(chars@.take(0) =~= Seq::<char>::empty());
    assert(chars@.subrange(0, 0) =~= Seq::<char>::empty());
    assert(lines_of(chars@.take(0)).drop_last() =~= Seq::<Seq<char>>::empty());
    assert(out.deep_view() =~= Seq::<Seq<char>>::empty());
    for i in 0..chars.len()
        invariant
            start <= i <= chars@.len(),
            lines_of(chars@.take(i as int)).len() > 0,
            lines_of(chars@.take(i as int)).last() == chars@.subrange(start as int, i as int),
            out.deep_view() == filled_lines(lines_of(chars@.take(i as int)).drop_last()),
    {
        let ghost before = lines_of(chars@.take(i as int));
        assert(chars@.take(i + 1).drop_last() =~= chars@.take(i as int));
        assert(chars@.take(i + 1).last() == chars@[i as int]);
        let ghost after = lines_of(chars@.take(i + 1));
        if chars[i] == '\n' {
            let line = trimmed_between(&chars, start, i);
            assert(after.drop_last() =~= before);
            if !line.as_str().is_empty() {
                let ghost kept = out.deep_view();
                out.push(line);
                assert(out.deep_view() =~= kept.push(line@));
            }
            start = i + 1;
            assert(chars@.subrange(start as int, i + 1) =~= Seq::<char>::empty());
        } else {
            assert(after.drop_last() =~= before.drop_last());
            assert(chars@.subrange(start as int, i + 1) =~= chars@.subrange(
                start as int,
                i as int,
            ).push(chars@[i as int]));
        }
    }
    let ghost all = lines_of(chars@);
    assert(chars@.take(chars@.len() as int) =~= chars@);
    let line = trimmed_between(&chars, start, chars.len());
    if !line.as_str().is_empty() {
        let ghost kept = out.deep_view();
        out.push(line);
        assert(out.deep_view() =~= kept.push(line@));
    }
    out
}

}
