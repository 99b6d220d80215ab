//! Names: comparing node names and naming worker threads.

use vstd::prelude::*;

verus! {

/// The character of a decimal digit.
pub open spec fn digit_char(d: nat) -> char {
    if d == 0 { '0' }
    else if d == 1 { '1' }
    else if d == 2 { '2' }
    else if d == 3 { '3' }
    else if d == 4 { '4' }
    else if d == 5 { '5' }
    else if d == 6 { '6' }
    else if d == 7 { '7' }
    else if d == 8 { '8' }
    else { '9' }
}

/// The decimal representation of `n`, without leading zeros.
pub open spec fn decimal(n: nat) -> Seq<char>
    decreases n,
{
    if n < 10 {
        seq![digit_char(n)]
    } else {
        decimal(n / 10).push(digit_char(n % 10))
    }
}

/// `name`, then `sep`, then the decimal representation of `idx`.
pub open spec fn indexed_name(name: Seq<char>, sep: Seq<char>, idx: nat) -> Seq<char> {
    name + sep + decimal(idx)
}

/// Whether `c` is one of the characters of decimal digits.
pub open spec fn is_digit_char(c: char) -> bool {
    '0' <= c && c <= '9'
}

/// The decimal representation of a number is not empty and holds only digits.
pub proof fn lemma_decimal_digits(n: nat)
    ensures
        decimal(n).len() >= 1,
        forall|i: int| 0 <= i < decimal(n).len() ==> is_digit_char(#[trigger] decimal(n)[i]),
    decreases n,
{
    if n >= 10 {
        lemma_decimal_digits(n / 10);
    }
}

/// The number that the character `c` stands for as a decimal digit: its
/// distance from `'0'`.
pub open spec fn digit_value(c: char) -> int {
    c as int - '0' as int
}

/// The number that `s` stands for read as a base-ten numeral, most significant
/// digit first.
pub open spec fn numeral_value(s: Seq<char>) -> int
    decreases s.len(),
{
    if s.len() == 0 {
        0
    } else {
        numeral_value(s.drop_last()) * 10 + digit_value(s.last())
    }
}

/// The character of digit `d` is the one `d` places after `'0'`.
pub proof fn lemma_digit_char_code(d: nat)
    requires
        d < 10,
    ensures
        digit_value(digit_char(d)) == d,
        is_digit_char(digit_char(d)),
{
}

/// The decimal representation of `n` is a base-ten numeral for `n`: read back
/// digit by digit, it gives `n`.
pub proof fn lemma_decimal_reads_back(n: nat)
    ensures
        numeral_value(decimal(n)) == n,
    decreases n,
{
    lemma_digit_char_code(n % 10);
    if n >= 10 {
        lemma_decimal_reads_back(n / 10);
        let d = decimal(n);
        assert(d.drop_last() =~= decimal(n / 10));
        assert(d.last() == digit_char(n % 10));
        assert(numeral_value(d) == numeral_value(decimal(n / 10)) * 10 + digit_value(
            digit_char(n % 10),
        ));
        assert(n == (n / 10) * 10 + n % 10);
    } else {
        let d = decimal(n);
        assert(d.drop_last() =~= Seq::<char>::empty());
        assert(numeral_value(Seq::<char>::empty()) == 0);
        assert(numeral_value(d) == numeral_value(d.drop_last()) * 10 + digit_value(d.last()));
    }
}

/// A thread name is the name, then the separator, then digits that read
/// back as the thread's number in base ten.
pub proof fn lemma_indexed_name_parts(name: Seq<char>, sep: Seq<char>, idx: nat)
    ensures
        ({
            let t = indexed_name(name, sep, idx);
            let digits = t.subrange((name.len() + sep.len()) as int, t.len() as int);
            &&& t.subrange(0, name.len() as int) == name
            &&& t.subrange(name.len() as int, (name.len() + sep.len()) as int) == sep
            &&& numeral_value(digits) == idx
            &&& digits.len() >= 1
            &&& forall|i: int| 0 <= i < digits.len() ==> is_digit_char(#[trigger] digits[i])
        }),
{
    let t = indexed_name(name, sep, idx);
    lemma_decimal_reads_back(idx);
    lemma_decimal_digits(idx);
    assert(t.subrange((name.len() + sep.len()) as int, t.len() as int) =~= decimal(idx));
    assert(t.subrange(0, name.len() as int) =~= name);
    assert(t.subrange(name.len() as int, (name.len() + sep.len()) as int) =~= sep);
}

/// Different numbers have different decimal representations.
pub proof fn lemma_decimal_injective(a: nat, b: nat)
    requires
        decimal(a) == decimal(b),
    ensures
        a == b,
    decreases a,
{
    lemma_decimal_digits(a / 10);
    lemma_decimal_digits(b / 10);
    if a < 10 && b < 10 {
        assert(decimal(a)[0] == digit_char(a));
        assert(decimal(b)[0] == digit_char(b));
    } else if a < 10 {
        assert(decimal(b).len() >= 2);
    } else if b < 10 {
        assert(decimal(a).len() >= 2);
    } else {
        assert(decimal(a).last() == digit_char(a % 10));
        assert(decimal(b).last() == digit_char(b % 10));
        assert(decimal(a).drop_last() =~= decimal(a / 10));
        assert(decimal(b).drop_last() =~= decimal(b / 10));
        lemma_decimal_injective(a / 10, b / 10);
    }
}

/// A thread name made of a name, a separator that is not a digit and a number
/// gives back both the name and the number: two such names are equal only when
/// the names and the numbers are.
pub proof fn lemma_indexed_name_injective(
    name1: Seq<char>,
    name2: Seq<char>,
    sep: Seq<char>,
    i1: nat,
    i2: nat,
)
    requires
        sep.len() == 1,
        !is_digit_char(sep[0]),
        indexed_name(name1, sep, i1) == indexed_name(name2, sep, i2),
    ensures
        name1 == name2,
        i1 == i2,
{
    let s = indexed_name(name1, sep, i1);
    let d1 = decimal(i1);
    let d2 = decimal(i2);
    lemma_decimal_digits(i1);
    lemma_decimal_digits(i2);
    assert(s.len() == name1.len() + 1 + d1.len());
    assert(s.len() == name2.len() + 1 + d2.len());
    if d1.len() < d2.len() {
        let k = name1.len() as int;
        assert(s[k] == sep[0]);
        assert(s[k] == d2[k - name2.len() - 1]);
        assert(is_digit_char(d2[k - name2.len() - 1]));
    } else if d2.len() < d1.len() {
        let k = name2.len() as int;
        assert(indexed_name(name2, sep, i2)[k] == sep[0]);
        assert(s[k] == d1[k - name1.len() - 1]);
        assert(is_digit_char(d1[k - name1.len() - 1]));
    } else {
        assert(d1 =~= s.subrange(s.len() - d1.len(), s.len() as int));
        assert(d2 =~= indexed_name(name2, sep, i2).subrange(s.len() - d2.len(), s.len() as int));
        lemma_decimal_injective(i1, i2);
        assert(name1 =~= s.subrange(0, name1.len() as int));
        assert(name2 =~= indexed_name(name2, sep, i2).subrange(0, name2.len() as int));
    }
}

/// Whether two string slices hold the same characters.
pub(crate) fn str_equal(a: &str, b: &str) -> (r: bool)
    ensures
        r == (a@ == b@),
{
    let x = String::from_str(a);
    let y = String::from_str(b);
    x == y
}

/// The character of the decimal digit `d`, as a string.
fn digit_str(d: usize) -> (r: &'static str)
    requires
        d < 10,
    ensures
        r@ == seq![digit_char(d as nat)],
{
    proof {
        reveal_strlit("0");
        reveal_strlit("1");
        reveal_strlit("2");
        reveal_strlit("3");
        reveal_strlit("4");
        reveal_strlit("5");
        reveal_strlit("6");
        reveal_strlit("7");
        reveal_strlit("8");
        reveal_strlit("9");
    }
    if d == 0 {
        "0"
    } else if d == 1 {
        "1"
    } else if d == 2 {
        "2"
    } else if d == 3 {
        "3"
    } else if d == 4 {
        "4"
    } else if d == 5 {
        "5"
    } else if d == 6 {
        "6"
    } else if d == 7 {
        "7"
    } else if d == 8 {
        "8"
    } else {
        "9"
    }
}

/// `n` written in decimal, without sign, padding or leading zeros.
pub(crate) fn usize_to_decimal(n: usize) -> (r: String)
    ensures
        r@ == decimal(n as nat),
    decreases n,
{
    if n < 10 {
        String::from_str(digit_str(n))
    } else {
        let mut r = usize_to_decimal(n / 10);
        let last = digit_str(n % 10);
        r.append(last);
        assert(r@ =~= decimal((n / 10) as nat).push(digit_char((n % 10) as nat)));
        r
    }
}

/// `name`, then `sep`, then `idx` in decimal: the name given to the worker
/// thread of number `idx` of a stage or node.
pub fn indexed_thread_name(name: &str, sep: &str, idx: usize) -> (r: String)
    ensures
        r@ == indexed_name(name@, sep@, idx as nat),
{
    let mut r = String::from_str(name);
    r.append(sep);
    let digits = usize_to_decimal(idx);
    r.append(digits.as_str());
    r
}

} // verus!
