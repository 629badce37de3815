//! Numbers and lists as text.

use vstd::prelude::*;
use vstd::string::{StrSliceExecFns, StringExecFns};

verus! {

/// The character for one digit of a number, up to base sixteen.
pub open spec fn digit(d: int) -> char {
    if d < 10 {
        ('0' as int + d) as char
    } else {
        ('A' as int + d - 10) as char
    }
}

/// A number in base ten, without leading zeros.
pub open spec fn decimal(n: nat) -> Seq<char>
    decreases n,
{
    if n < 10 {
        seq![digit(n as int)]
    } else {
        decimal(n / 10).push(digit((n % 10) as int))
    }
}

/// A number in base sixteen, in capitals, without leading zeros.
pub open spec fn hex(n: nat) -> Seq<char>
    decreases n,
{
    if n < 16 {
        seq![digit(n as int)]
    } else {
        hex(n / 16).push(digit((n % 16) as int))
    }
}

/// `digits` with zeros in front, as many as it takes to fill `width`.
pub open spec fn zero_padded(digits: Seq<char>, width: nat) -> Seq<char> {
    if digits.len() < width {
        Seq::new((width - digits.len()) as nat, |i: int| '0') + digits
    } else {
        digits
    }
}

/// The elements of `list` one after the other, with `separator` in between.
pub open spec fn joined(list: Seq<Seq<char>>, separator: Seq<char>) -> Seq<char>
    decreases list.len(),
{
    if list.len() == 0 {
        Seq::empty()
    } else if list.len() == 1 {
        list[0]
    } else {
        joined(list.drop_last(), separator) + separator + list.last()
    }
}

/// What each string of a list says.
pub open spec fn texts(list: Seq<String>) -> Seq<Seq<char>> {
    Seq::new(list.len(), |i: int| list[i]@)
}

/// What an optional string says.
pub open spec fn opt_text(s: Option<String>) -> Option<Seq<char>> {
    match s {
        Some(s) => Some(s@),
        None => None,
    }
}

fn digit_text(d: u64) -> (s: &'static str)
    requires
        d < 16,
    ensures
        s@ == seq![digit(d as int)],
{
    proof {
        reveal_strlit("0");
        reveal_strlit("1");
        reveal_strlit("2");
        reveal_strlit("3");
        reveal_strlit("4");
        reveal_strlit("5");
        reveal_strlit("6");
        reveal_strlit("7");
        reveal_strlit("8");
        reveal_strlit("9");
        reveal_strlit("A");
        reveal_strlit("B");
        reveal_strlit("C");
        reveal_strlit("D");
        reveal_strlit("E");
        reveal_strlit("F");
    }
    match d {
        0 => "0",
        1 => "1",
        2 => "2",
        3 => "3",
        4 => "4",
        5 => "5",
        6 => "6",
        7 => "7",
        8 => "8",
        9 => "9",
        10 => "A",
        11 => "B",
        12 => "C",
        13 => "D",
        14 => "E",
        _ => "F",
    }
}

/// Writes `n` in base ten.
pub fn decimal_text(n: u64) -> (s: String)
    ensures
        s@ == decimal(n as nat),
    decreases n,
{
    if n < 10 {
        digit_text(n).to_owned()
    } else {
        let mut s = decimal_text(n / 10);
        s.append(digit_text(n % 10));
        assert(s@ =~= decimal(n as nat));
        s
    }
}

/// Writes `n` in base sixteen, in capitals.
pub fn hex_text(n: u64) -> (s: String)
    ensures
        s@ == hex(n as nat),
    decreases n,
{
    if n < 16 {
        digit_text(n).to_owned()
    } else {
        let mut s = hex_text(n / 16);
        s.append(digit_text(n % 16));
        assert(s@ =~= hex(n as nat));
        s
    }
}

/// Puts zeros in front of `digits` until `width` is filled.
pub fn zero_pad(digits: &String, width: usize) -> (s: String)
    ensures
        s@ == zero_padded(digits@, width as nat),
{
    let len: usize = digits.as_str().unicode_len();
    let mut s = String::new();
    let mut i: usize = len;
    while i < width
        invariant
            i >= len,
            len < width ==> i <= width,
            len >= width ==> i == len,
            s@ == Seq::new((i - len) as nat, |j: int| '0'),
        decreases width - i,
    {
        s.append(digit_text(0));
        i = i + 1;
        assert(s@ =~= Seq::new((i - len) as nat, |j: int| '0'));
    }
    s.append(digits.as_str());
    assert(s@ =~= zero_padded(digits@, width as nat));
    s
}

/// Writes the elements of `list` one after the other, with `separator` in
/// between.
pub fn join(list: &Vec<String>, separator: &str) -> (s: String)
    ensures
        s@ == joined(texts(list@), separator@),
{
    let mut s = String::new();
    let mut i: usize = 0;
    while i < list.len()
        invariant
            i <= list.len(),
            s@ == joined(texts(list@).take(i as int), separator@),
        decreases list.len() - i,
    {
        if i > 0 {
            s.append(separator);
        }
        s.append(list[i].as_str());
        proof {
            let now = texts(list@).take(i + 1);
            assert(now.drop_last() =~= texts(list@).take(i as int));
            if i == 0 {
                assert(s@ =~= now[0]);
            } else {
                assert(s@ =~= joined(now, separator@));
            }
        }
        i = i + 1;
    }
    assert(texts(list@).take(list.len() as int) =~= texts(list@));
    s
}

/// The value of a digit.
pub open spec fn value(c: char) -> int {
    if ('0' as int) <= c as int <= '9' as int {
        c as int - '0' as int
    } else {
        c as int - 'A' as int + 10
    }
}

/// The number that a text stands for: each digit counts `base` times as much as
/// the next.
pub open spec fn number(s: Seq<char>, base: int) -> int
    decreases s.len(),
{
    if s.len() == 0 {
        0
    } else {
        base * number(s.drop_last(), base) + value(s.last())
    }
}

/// The number that a text in base ten stands for.
spec fn parsed(s: Seq<char>) -> int {
    number(s, 10)
}

proof fn lemma_parsed_decimal(n: nat)
    ensures
        parsed(decimal(n)) == n,
    decreases n,
{
    if n < 10 {
        assert(decimal(n).drop_last() =~= Seq::empty());
        assert(parsed(Seq::<char>::empty()) == 0);
        assert(value(digit(n as int)) == n);
    } else {
        lemma_parsed_decimal(n / 10);
        assert(decimal(n).drop_last() =~= decimal(n / 10));
        assert(value(digit((n % 10) as int)) == n % 10);
    }
}

proof fn lemma_number_zeros(k: nat, s: Seq<char>, base: int)
    ensures
        number(Seq::new(k, |i: int| '0') + s, base) == number(s, base),
    decreases s.len(), k,
{
    let zeros = Seq::new(k, |i: int| '0');
    if s.len() > 0 {
        lemma_number_zeros(k, s.drop_last(), base);
        assert((zeros + s).drop_last() =~= zeros + s.drop_last());
    } else if k > 0 {
        lemma_number_zeros((k - 1) as nat, s, base);
        assert((zeros + s).drop_last() =~= Seq::new((k - 1) as nat, |i: int| '0') + s);
        assert(base * 0 == 0) by (nonlinear_arith);
    } else {
        assert(zeros + s =~= s);
    }
}

proof fn lemma_parsed_zeros(k: nat, s: Seq<char>)
    ensures
        parsed(Seq::new(k, |i: int| '0') + s) == parsed(s),
{
    lemma_number_zeros(k, s, 10);
}

/// The sixteen digits are those that everybody uses, the letters in capitals.
pub proof fn law_digits_are_the_usual(d: int)
    requires
        0 <= d < 16,
    ensures
        digit(d) == "0123456789ABCDEF"@[d],
        value(digit(d)) == d,
{
    reveal_strlit("0123456789ABCDEF");
}

/// A number that is written in base ten reads back as itself. It is written
/// with decimal digits alone, and no zero stands in front.
pub proof fn law_decimal_reads_back(n: nat)
    ensures
        number(decimal(n), 10) == n,
        decimal(n).len() > 0,
        forall|i: int|
            0 <= i < decimal(n).len() ==> '0' as int <= (#[trigger] decimal(n)[i]) as int
                <= '9' as int,
        decimal(n)[0] == '0' ==> n == 0 && decimal(n).len() == 1,
    decreases n,
{
    lemma_parsed_decimal(n);
    if n >= 10 {
        law_decimal_reads_back(n / 10);
        let front = decimal(n / 10);
        assert forall|i: int| 0 <= i < decimal(n).len() implies '0' as int <= (
        #[trigger] decimal(n)[i]) as int <= '9' as int by {
            if i < front.len() {
                assert(decimal(n)[i] == front[i]);
            }
        }
        assert(decimal(n)[0] == front[0]);
    }
}

/// A number that is written in base sixteen reads back as itself. It is written
/// with decimal digits and the capitals from A to F alone, and no zero stands
/// in front.
pub proof fn law_hex_reads_back(n: nat)
    ensures
        number(hex(n), 16) == n,
        hex(n).len() > 0,
        forall|i: int|
            0 <= i < hex(n).len() ==> '0' as int <= (#[trigger] hex(n)[i]) as int <= '9' as int
                || 'A' as int <= hex(n)[i] as int <= 'F' as int,
        hex(n)[0] == '0' ==> n == 0 && hex(n).len() == 1,
    decreases n,
{
    if n < 16 {
        assert(hex(n).drop_last() =~= Seq::empty());
        assert(number(Seq::<char>::empty(), 16) == 0);
        law_digits_are_the_usual(n as int);
    } else {
        law_hex_reads_back(n / 16);
        law_digits_are_the_usual((n % 16) as int);
        let front = hex(n / 16);
        assert(hex(n).drop_last() =~= front);
        assert forall|i: int| 0 <= i < hex(n).len() implies '0' as int <= (
        #[trigger] hex(n)[i]) as int <= '9' as int || 'A' as int <= hex(n)[i] as int
            <= 'F' as int by {
            if i < front.len() {
                assert(hex(n)[i] == front[i]);
            }
        }
        assert(hex(n)[0] == front[0]);
    }
}

/// Filling up puts zeros in front until the width is reached, and never takes
/// anything away: the digits end the text, and read in base ten or sixteen it
/// stands for the same number.
pub proof fn law_filling_up_adds_zeros_in_front(digits: Seq<char>, width: nat)
    ensures
        ({
            let s = zero_padded(digits, width);
            let k = s.len() - digits.len();
            &&& digits.len() >= width ==> s.len() == digits.len()
            &&& digits.len() < width ==> s.len() == width
            &&& s.skip(k) == digits
            &&& forall|i: int| 0 <= i < k ==> #[trigger] s[i] == '0'
            &&& number(s, 10) == number(digits, 10)
            &&& number(s, 16) == number(digits, 16)
        }),
{
    let s = zero_padded(digits, width);
    let k = s.len() - digits.len();
    assert(s.skip(k) =~= digits);
    if digits.len() < width {
        lemma_number_zeros(k as nat, digits, 10);
        lemma_number_zeros(k as nat, digits, 16);
    }
}

/// Nothing joined is nothing, one text joined is that text, and of two lists
/// joined one after the other the separator stands in between.
pub proof fn law_joining_puts_separators_between(
    a: Seq<Seq<char>>,
    b: Seq<Seq<char>>,
    text: Seq<char>,
    separator: Seq<char>,
)
    requires
        a.len() > 0,
        b.len() > 0,
    ensures
        joined(Seq::empty(), separator).len() == 0,
        joined(seq![text], separator) == text,
        joined(a + b, separator) == joined(a, separator) + separator + joined(b, separator),
    decreases b.len(),
{
    let all = a + b;
    if b.len() == 1 {
        assert(all.drop_last() =~= a);
        assert(joined(all, separator) == joined(a, separator) + separator + b[0]);
    } else {
        law_joining_puts_separators_between(a, b.drop_last(), text, separator);
        assert(all.drop_last() =~= a + b.drop_last());
        assert(all.last() == b.last());
        assert(joined(all, separator) =~= joined(a, separator) + separator + joined(b, separator));
    }
}

/// The texts of a list are what its strings say, one for one and in order; and
/// an optional string says what it holds.
pub proof fn law_texts_are_what_strings_say(list: Seq<String>, s: String)
    ensures
        texts(list).len() == list.len(),
        forall|i: int| 0 <= i < list.len() ==> #[trigger] texts(list)[i] == list[i]@,
        opt_text(Some(s)) == Some(s@),
        opt_text(None) is None,
{
}

/// Two numbers that are written alike are the same, zeros in front or not.
pub proof fn law_decimal_is_injective(m: nat, n: nat, width: nat)
    requires
        zero_padded(decimal(m), width) == zero_padded(decimal(n), width),
    ensures
        m == n,
{
    lemma_parsed_decimal(m);
    lemma_parsed_decimal(n);
    lemma_parsed_zeros((width - decimal(m).len()) as nat, decimal(m));
    lemma_parsed_zeros((width - decimal(n).len()) as nat, decimal(n));
}

} // verus!
