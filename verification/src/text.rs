//! Small operations on text.

use vstd::prelude::*;

verus! {

/// The decimal digit `d` as a character.
pub open spec fn digit(d: int) -> char
    recommends
        0 <= d < 10,
{
    (48 + d) as u8 as char
}

/// The decimal numeral of `n`, without leading zeros.
pub open spec fn numeral(n: nat) -> Seq<char>
    decreases n,
{
    if n < 10 {
        seq![digit(n as int)]
    } else {
        numeral(n / 10).push(digit((n % 10) as int))
    }
}

/// Holds of every character but `c`.
pub open spec fn other_than(c: char) -> spec_fn(char) -> bool {
    |x: char| x != c
}

/// `text` with every occurrence of `c` taken out.
pub open spec fn without(text: Seq<char>, c: char) -> Seq<char> {
    text.filter(other_than(c))
}

/// Whether `text` is written in ASCII, without slashes, backslashes and colons.
pub open spec fn is_plain(text: Seq<char>) -> bool {
    forall|i: int|
        0 <= i < text.len() ==> '\0' <= #[trigger] text[i] <= '\u{7f}' && text[i] != '/' && text[i]
            != '\\' && text[i] != ':'
}

/// Plain texts make a plain text.
pub proof fn lemma_plain_add(a: Seq<char>, b: Seq<char>)
    requires
        is_plain(a),
        is_plain(b),
    ensures
        is_plain(a + b),
{
}

/// Whether `text` starts with `prefix`.
pub open spec fn starts_with(text: Seq<char>, prefix: Seq<char>) -> bool {
    prefix.len() <= text.len() && text.subrange(0, prefix.len() as int) == prefix
}

/// Whether `text` ends with `suffix`.
pub open spec fn ends_with(text: Seq<char>, suffix: Seq<char>) -> bool {
    suffix.len() <= text.len() && text.subrange(
        text.len() - suffix.len(),
        text.len() as int,
    ) == suffix
}

fn digit_text(d: u8) -> (res: &'static str)
    requires
        d < 10,
    ensures
        res@ == seq![digit(d as int)],
{
    proof {
        reveal_strlit("0");
        reveal_strlit("1");
        reveal_strlit("2");
        reveal_strlit("3");
        reveal_strlit("4");
        reveal_strlit("5");
        reveal_strlit("6");
        reveal_strlit("7");
        reveal_strlit("8");
        reveal_strlit("9");
    }
    match d {
        0 => "0",
        1 => "1",
        2 => "2",
        3 => "3",
        4 => "4",
        5 => "5",
        6 => "6",
        7 => "7",
        8 => "8",
        _ => "9",
    }
}

/// Write `n` as a decimal numeral.
pub(crate) fn decimal(n: u64) -> (res: String)
    ensures
        res@ == numeral(n as nat),
    decreases n,
{
    if n < 10 {
        digit_text(n as u8).to_owned()
    } else {
        let mut res = decimal(n / 10);
        res.append(digit_text((n % 10) as u8));
        res
    }
}

/// Put two pieces of text together.
pub(crate) fn concat2(a: &str, b: &str) -> (res: String)
    ensures
        res@ == a@ + b@,
{
    let mut res = a.to_owned();
    res.append(b);
    res
}

/// Put three pieces of text together.
pub(crate) fn concat3(a: &str, b: &str, c: &str) -> (res: String)
    ensures
        res@ == a@ + b@ + c@,
{
    let mut res = concat2(a, b);
    res.append(c);
    res
}

/// Whether the characters of `text` from `at` on begin with `part`.
fn matches_at(text: &str, at: usize, part: &str) -> (res: bool)
    requires
        at + part@.len() <= text@.len(),
    ensures
        res == (text@.subrange(at as int, at + part@.len()) == part@),
{
    let n = part.unicode_len();
    let total = text.unicode_len();
    let mut i: usize = 0;
    while i < n
        invariant
            n == part@.len(),
            total == text@.len(),
            at + n <= total,
            i <= n,
            forall|j: int| 0 <= j < i ==> text@[at + j] == part@[j],
        decreases n - i,
    {
        if text.get_char(at + i) != part.get_char(i) {
            assert(text@.subrange(at as int, at + part@.len())[i as int] != part@[i as int]);
            return false;
        }
        i += 1;
    }
    assert(text@.subrange(at as int, at + part@.len()) =~= part@);
    true
}

/// What follows `prefix` in `text`, if `text` starts with it.
pub(crate) fn strip_prefix<'a>(text: &'a str, prefix: &str) -> (res: Option<&'a str>)
    ensures
        res is Some <==> starts_with(text@, prefix@),
        res matches Some(rest) ==> text@ == prefix@ + rest@,
{
    let n = prefix.unicode_len();
    let total = text.unicode_len();
    if n <= total && matches_at(text, 0, prefix) {
        let rest = text.substring_char(n, total);
        assert(text@ =~= prefix@ + rest@);
        Some(rest)
    } else {
        None
    }
}

/// What comes before `suffix` in `text`, if `text` ends with it.
pub(crate) fn strip_suffix<'a>(text: &'a str, suffix: &str) -> (res: Option<&'a str>)
    ensures
        res is Some <==> ends_with(text@, suffix@),
        res matches Some(rest) ==> text@ == rest@ + suffix@,
{
    let n = suffix.unicode_len();
    let total = text.unicode_len();
    if n <= total && matches_at(text, total - n, suffix) {
        let rest = text.substring_char(0, total - n);
        assert(text@ =~= rest@ + suffix@);
        Some(rest)
    } else {
        None
    }
}

/// Take every occurrence of `c` out of `text`.
pub(crate) fn remove_char(text: &str, c: char) -> (res: String)
    ensures
        res@ == without(text@, c),
{
    let total = text.unicode_len();
    let mut res = String::new();
    let mut i: usize = 0;
    proof {
        assert(text@.subrange(0, 0) =~= Seq::<char>::empty());
        reveal(Seq::filter);
    }
    while i < total
        invariant
            total == text@.len(),
            i <= total,
            res@ == text@.subrange(0, i as int).filter(other_than(c)),
        decreases total - i,
    {
        proof {
            reveal(Seq::filter);
            assert(text@.subrange(0, i + 1).drop_last() =~= text@.subrange(0, i as int));
            assert(text@.subrange(0, i + 1).last() == text@[i as int]);
        }
        if text.get_char(i) != c {
            let one = text.substring_char(i, i + 1);
            assert(one@ =~= seq![text@[i as int]]);
            let ghost before = res@;
            res.append(one);
            assert(res@ =~= before.push(text@[i as int]));
        }
        i += 1;
    }
    assert(text@.subrange(0, total as int) =~= text@);
    res
}

/// The number that a text of decimal digits stands for.
pub open spec fn decimal_value(text: Seq<char>) -> int
    decreases text.len(),
{
    if text.len() == 0 {
        0
    } else {
        decimal_value(text.drop_last()) * 10 + (text.last() as int - 48)
    }
}

/// The numeral of a number is written in decimal digits, stands for that number, and has no zeros in
/// front.
pub proof fn numeral_stands_for_its_number(n: nat)
    ensures
        decimal_value(numeral(n)) == n,
        numeral(n).len() > 0,
        forall|i: int| 0 <= i < numeral(n).len() ==> '0' <= #[trigger] numeral(n)[i] <= '9',
        n > 0 ==> numeral(n)[0] != '0',
        n == 0 ==> numeral(n).len() == 1,
    decreases n,
{
    if n < 10 {
        assert(numeral(n).drop_last() =~= Seq::<char>::empty());
        assert(decimal_value(Seq::<char>::empty()) == 0);
        assert(numeral(n).last() as int == 48 + n);
    } else {
        numeral_stands_for_its_number(n / 10);
        assert(numeral(n).drop_last() =~= numeral(n / 10));
        assert(numeral(n).last() as int == 48 + n % 10);
    }
}

} // verus!
