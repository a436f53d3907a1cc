//! Text: decimal numerals, substring search, and splitting at a character.
use crate::search::first_where;
use crate::search::lemma_first_where_is;
use vstd::prelude::*;
use vstd::string::*;

verus! {

/// The character of a decimal digit.
pub open spec fn digit(d: nat) -> char {
    (('0' as nat + d) as u8) as char
}

/// The decimal numeral of a natural number, without leading zeros.
pub open spec fn digits(n: nat) -> Seq<char>
    decreases n,
{
    if n < 10 {
        seq![digit(n)]
    } else {
        digits(n / 10).push(digit(n % 10))
    }
}

/// The decimal numeral of an integer, with a minus sign where it is negative.
pub open spec fn decimal(n: int) -> Seq<char> {
    if n < 0 {
        seq!['-'] + digits((-n) as nat)
    } else {
        digits(n as nat)
    }
}

/// No digit stands for two numbers, and none of them is the minus sign.
proof fn lemma_digit(c: nat, d: nat)
    requires
        c < 10,
        d < 10,
    ensures
        digit(c) == digit(d) ==> c == d,
        digit(c) != '-',
{
}

/// Two natural numbers with the same numeral are the same.
pub proof fn lemma_digits_injective(a: nat, b: nat)
    requires
        digits(a) == digits(b),
    ensures
        a == b,
    decreases a,
{
    lemma_digits_len(a);
    lemma_digits_len(b);
    assert(digits(a).last() == digit(a % 10));
    assert(digits(b).last() == digit(b % 10));
    lemma_digit(a % 10, b % 10);
    if a < 10 {
        if b >= 10 {
            lemma_digits_len(b / 10);
        }
    } else if b < 10 {
        lemma_digits_len(a / 10);
    } else {
        assert(digits(a).drop_last() =~= digits(a / 10));
        assert(digits(b).drop_last() =~= digits(b / 10));
        lemma_digits_injective(a / 10, b / 10);
    }
}

/// A numeral has a first character, which is not the minus sign.
proof fn lemma_digits_len(n: nat)
    ensures
        digits(n).len() > 0,
        digits(n)[0] != '-',
    decreases n,
{
    lemma_digit(n % 10, 0);
    if n >= 10 {
        lemma_digits_len(n / 10);
    }
}

/// Two integers with the same decimal numeral are the same.
pub proof fn law_decimal_injective(a: int, b: int)
    requires
        decimal(a) == decimal(b),
    ensures
        a == b,
{
    if a < 0 && b < 0 {
        let x = digits((-a) as nat);
        let y = digits((-b) as nat);
        assert((seq!['-'] + x).skip(1) =~= x);
        assert((seq!['-'] + y).skip(1) =~= y);
        lemma_digits_injective((-a) as nat, (-b) as nat);
    } else if a >= 0 && b >= 0 {
        lemma_digits_injective(a as nat, b as nat);
    } else {
        let n = if a < 0 { b } else { a };
        lemma_digits_len(n as nat);
        assert(decimal(n)[0] != '-');
    }
}

/// Appends the numeral of `n`.
fn push_digits(out: &mut String, n: u32)
    ensures
        final(out)@ == old(out)@ + digits(n as nat),
    decreases n,
{
    if n >= 10 {
        push_digits(out, n / 10);
    }
    let ghost before = out@;
    let d = n % 10;
    let name = if d == 0 { "0" } else if d == 1 { "1" } else if d == 2 { "2" } else if d == 3 { "3" }
        else if d == 4 { "4" } else if d == 5 { "5" } else if d == 6 { "6" } else if d == 7 { "7" }
        else if d == 8 { "8" } else { "9" };
    proof {
        reveal_strlit("0");
        reveal_strlit("1");
        reveal_strlit("2");
        reveal_strlit("3");
        reveal_strlit("4");
        reveal_strlit("5");
        reveal_strlit("6");
        reveal_strlit("7");
        reveal_strlit("8");
        reveal_strlit("9");
        assert(name@ =~= seq![digit(d as nat)]);
    }
    out.append(name);
    assert(out@ =~= old(out)@ + digits(n as nat));
}

/// The decimal numeral of `n`.
pub fn decimal_of(n: i32) -> (r: String)
    ensures
        r@ == decimal(n as int),
{
    let mut out = String::new();
    if n < 0 {
        proof {
            reveal_strlit("-");
        }
        out.append("-");
        let size: i64 = -(n as i64);
        push_digits(&mut out, size as u32);
    } else {
        push_digits(&mut out, n as u32);
    }
    assert(out@ =~= decimal(n as int));
    out
}

/// Whether `part` stands in `whole` from position `at` on.
pub open spec fn stands_at(whole: Seq<char>, part: Seq<char>, at: int) -> bool {
    0 <= at && at + part.len() <= whole.len() && whole.subrange(at, at + part.len()) == part
}

/// Whether `part` stands somewhere in `whole`.
pub open spec fn contains_text(whole: Seq<char>, part: Seq<char>) -> bool {
    exists|at: int| #[trigger] stands_at(whole, part, at)
}

/// Whether `part` stands somewhere in `whole`.
pub fn contains(whole: &str, part: &str) -> (r: bool)
    ensures
        r == contains_text(whole@, part@),
{
    let n = whole.unicode_len();
    let m = part.unicode_len();
    let mut at: usize = 0;
    while at <= n && m <= n - at
        invariant
            n == whole@.len(),
            m == part@.len(),
            at <= n + 1,
            forall|k: int| 0 <= k < at ==> !stands_at(whole@, part@, k),
        decreases n + 1 - at,
    {
        let mut same: usize = 0;
        while same < m && whole.get_char(at + same) == part.get_char(same)
            invariant
                n == whole@.len(),
                m == part@.len(),
                at + m <= n,
                same <= m,
                forall|k: int| 0 <= k < same ==> whole@[at + k] == part@[k],
            decreases m - same,
        {
            same = same + 1;
        }
        if same == m {
            assert(whole@.subrange(at as int, at + m) =~= part@);
            assert(stands_at(whole@, part@, at as int));
            return true;
        }
        assert(!stands_at(whole@, part@, at as int)) by {
            if stands_at(whole@, part@, at as int) {
                assert(whole@.subrange(at as int, at + m)[same as int] == part@[same as int]);
            }
        }
        if at == n {
            assert(forall|k: int| stands_at(whole@, part@, k) ==> k <= at);
            return false;
        }
        at = at + 1;
    }
    assert(forall|k: int| stands_at(whole@, part@, k) ==> k < at);
    false
}

/// Whether a character is `mark`.
pub open spec fn equals(mark: char) -> spec_fn(char) -> bool {
    |c: char| c == mark
}

/// The position of the first `mark` in `line`, its length where it holds none.
pub open spec fn position(line: Seq<char>, mark: char) -> int {
    first_where(line, equals(mark))
}

/// The parts of `line` before and behind the first `mark`, where it holds one.
pub open spec fn split_at_first(line: Seq<char>, mark: char) -> Option<(Seq<char>, Seq<char>)> {
    let at = position(line, mark);
    if at < line.len() {
        Some((line.take(at), line.skip(at + 1)))
    } else {
        None
    }
}

/// Splits `line` at the first `mark`.
pub fn split_once(line: &str, mark: char) -> (r: Option<(String, String)>)
    ensures
        match r {
            Some((before, behind)) => split_at_first(line@, mark) == Some((before@, behind@)),
            None => split_at_first(line@, mark) is None,
        },
{
    let n = line.unicode_len();
    let mut at: usize = 0;
    while at < n && line.get_char(at) != mark
        invariant
            n == line@.len(),
            at <= n,
            forall|k: int| 0 <= k < at ==> line@[k] != mark,
        decreases n - at,
    {
        at = at + 1;
    }
    proof {
        lemma_first_where_is(line@, equals(mark), at as int);
    }
    if at < n {
        let before = line.substring_char(0, at).to_owned();
        let behind = line.substring_char(at + 1, n).to_owned();
        assert(before@ =~= line@.take(at as int));
        assert(behind@ =~= line@.skip(at + 1));
        Some((before, behind))
    } else {
        None
    }
}

/// The numeral of a number ends in the digit of its ones, and before that stands the numeral of its
/// tens, where there are any; the numeral of a negative number is a minus sign and the numeral of the
/// number without it.
pub proof fn law_decimal_digits(tens: int, ones: int)
    requires
        tens >= 0,
        0 <= ones < 10,
    ensures
        decimal(10 * tens + ones).len() > 0,
        decimal(10 * tens + ones).last() as int == '0' as int + ones,
        tens == 0 ==> decimal(10 * tens + ones).len() == 1,
        tens > 0 ==> decimal(10 * tens + ones).drop_last() == decimal(tens),
        10 * tens + ones > 0 ==> decimal(-(10 * tens + ones)) == seq!['-'] + decimal(
            10 * tens + ones,
        ),
{
    let n = (10 * tens + ones) as nat;
    assert(n / 10 == tens);
    assert(n % 10 == ones);
    assert(n < 10 <==> tens == 0);
    if tens > 0 {
        assert(digits(n).drop_last() =~= digits(tens as nat));
    }
}

/// A text contains another exactly if it is made up of something, that text, and something.
pub proof fn law_contained_text(whole: Seq<char>, part: Seq<char>)
    ensures
        contains_text(whole, part) <==> exists|before: Seq<char>, behind: Seq<char>|
            whole == #[trigger] (before + part + behind),
{
    if contains_text(whole, part) {
        let at = choose|at: int| #[trigger] stands_at(whole, part, at);
        let before = whole.take(at);
        let behind = whole.skip((at + part.len()) as int);
        assert(whole.subrange(at, at + part.len()) == part);
        assert(whole =~= before + part + behind) by {
            assert(whole =~= before + whole.subrange(at, at + part.len()) + behind);
        }
    }
    if exists|before: Seq<char>, behind: Seq<char>| whole == #[trigger] (before + part + behind) {
        let (before, behind) = choose|before: Seq<char>, behind: Seq<char>|
            whole == #[trigger] (before + part + behind);
        assert(whole.subrange(before.len() as int, (before.len() + part.len()) as int) =~= part);
        assert(stands_at(whole, part, before.len() as int));
    }
}

/// A text that is put together of two with a mark between is split into those two, where the first
/// does not hold the mark; a text without the mark is not split.
pub proof fn law_split_undoes_joining(before: Seq<char>, mark: char, behind: Seq<char>)
    requires
        !before.contains(mark),
    ensures
        split_at_first(before + seq![mark] + behind, mark) == Some((before, behind)),
        split_at_first(before, mark) is None,
{
    let line = before + seq![mark] + behind;
    assert forall|k: int| 0 <= k < before.len() implies !equals(mark)(#[trigger] before[k])
        && !equals(mark)(line[k]) by {
        assert(before.contains(before[k]));
        assert(line[k] == before[k]);
    }
    lemma_first_where_is(before, equals(mark), before.len() as int);
    assert forall|k: int| 0 <= k < before.len() implies !equals(mark)(#[trigger] line[k]) by {
        assert(!equals(mark)(before[k]));
    }
    assert(line[before.len() as int] == mark);
    lemma_first_where_is(line, equals(mark), before.len() as int);
    assert(line.take(before.len() as int) =~= before);
    assert(line.skip(before.len() as int + 1) =~= behind);
}

} // verus!
