//! Text that error messages and reports are made of.

use vstd::prelude::*;

verus! {

/// The texts of a list of strings.
pub open spec fn texts(names: Seq<String>) -> Seq<Seq<char>> {
    names.map_values(|name: String| name@)
}

/// `parts` in order, with `separator` between neighbours.
pub open spec fn joined(parts: Seq<Seq<char>>, separator: Seq<char>) -> Seq<char>
    decreases parts.len(),
{
    if parts.len() == 0 {
        Seq::empty()
    } else if parts.len() == 1 {
        parts[0]
    } else {
        joined(parts.drop_last(), separator) + separator + parts.last()
    }
}

/// The decimal digit for `digit`.
pub open spec fn digit_char(digit: nat) -> char {
    (('0' as nat) + digit) as char
}

/// The decimal notation of `number`, without leading zeros.
pub open spec fn decimal(number: nat) -> Seq<char>
    decreases number,
{
    if number < 10 {
        seq![digit_char(number)]
    } else {
        decimal(number / 10).push(digit_char(number % 10))
    }
}

/// Whether two texts are the same.
pub fn same_text(a: &str, b: &str) -> (r: bool)
    ensures
        r == (a@ == b@),
{
    a.to_owned() == b.to_owned()
}

/// A copy of a list of strings.
pub fn copy_texts(names: &Vec<String>) -> (r: Vec<String>)
    ensures
        r@ == names@,
{
    let mut r: Vec<String> = Vec::new();
    let mut i: usize = 0;
    while i < names.len()
        invariant
            i <= names.len(),
            r@ == names@.take(i as int),
        decreases names.len() - i,
    {
        r.push(names[i].clone());
        assert(names@.take(i as int + 1) =~= names@.take(i as int).push(names@[i as int]));
        i = i + 1;
    }
    assert(names@.take(i as int) =~= names@);
    r
}

/// Joins `names` with `separator` between neighbours.
pub fn join(names: &Vec<String>, separator: &str) -> (r: String)
    ensures
        r@ == joined(texts(names@), separator@),
{
    let mut out = String::new();
    let mut i: usize = 0;
    while i < names.len()
        invariant
            i <= names.len(),
            out@ == joined(texts(names@.take(i as int)), separator@),
        decreases names.len() - i,
    {
        proof {
            let parts = texts(names@.take(i as int + 1));
            assert(parts.drop_last() =~= texts(names@.take(i as int)));
        }
        if i > 0 {
            out.append(separator);
        }
        out.append(names[i].as_str());
        i = i + 1;
    }
    proof {
        assert(names@.take(i as int) =~= names@);
    }
    out
}

/// Appends the decimal notation of `number` to `out`.
pub fn append_decimal(out: &mut String, number: u64)
    ensures
        final(out)@ == old(out)@ + decimal(number as nat),
    decreases number,
{
    if number >= 10 {
        append_decimal(out, number / 10);
    }
    let digit: u64 = number % 10;
    let text = match digit {
        0 => "0",
        1 => "1",
        2 => "2",
        3 => "3",
        4 => "4",
        5 => "5",
        6 => "6",
        7 => "7",
        8 => "8",
        _ => "9",
    };
    proof {
        reveal_strlit("0");
        reveal_strlit("1");
        reveal_strlit("2");
        reveal_strlit("3");
        reveal_strlit("4");
        reveal_strlit("5");
        reveal_strlit("6");
        reveal_strlit("7");
        reveal_strlit("8");
        reveal_strlit("9");
        assert(text@ =~= seq![digit_char(digit as nat)]);
    }
    out.append(text);
    assert(out@ =~= old(out)@ + decimal(number as nat));
}

/// Whether `a` comes before `b` in lexicographic order of code points, or is
/// the same.
pub open spec fn text_le(a: Seq<char>, b: Seq<char>) -> bool
    decreases a.len(),
{
    if a.len() == 0 {
        true
    } else if b.len() == 0 {
        false
    } else if a[0] == b[0] {
        text_le(a.drop_first(), b.drop_first())
    } else {
        (a[0] as nat) < (b[0] as nat)
    }
}

/// Whether the texts are in lexicographic order.
pub open spec fn sorted(all: Seq<Seq<char>>) -> bool {
    forall|i: int, j: int| 0 <= i <= j < all.len() ==> text_le(#[trigger] all[i], #[trigger] all[j])
}

/// `<[String]>::sort_unstable`: puts strings into the order of `str`, which is
/// the lexicographic order of code points.
#[verifier::external_body]
pub(crate) fn sort_texts(names: &mut Vec<String>)
    ensures
        texts(final(names)@).to_multiset() == texts(old(names)@).to_multiset(),
        sorted(texts(final(names)@)),
{
    names.sort_unstable()
}

/// The number that a sequence of digits stands for.
pub open spec fn value_of(digits: Seq<char>) -> int
    decreases digits.len(),
{
    if digits.len() == 0 {
        0
    } else {
        value_of(digits.drop_last()) * 10 + (digits.last() as int - '0' as int)
    }
}

/// The decimal notation of a number consists of digits, stands for the number and
/// has no leading zero.
pub proof fn decimals_stand_for_their_number(number: nat)
    ensures
        value_of(decimal(number)) == number,
        decimal(number).len() > 0,
        forall|i: int|
            0 <= i < decimal(number).len() ==> '0' <= (#[trigger] decimal(number)[i]) <= '9',
        number > 0 ==> decimal(number)[0] != '0',
    decreases number,
{
    let digits = decimal(number);
    if number < 10 {
        assert(digits.drop_last() =~= Seq::empty());
        assert(value_of(digits.drop_last()) == 0);
    } else {
        decimals_stand_for_their_number(number / 10);
        assert(digits.drop_last() =~= decimal(number / 10));
        assert(digits[0] == decimal(number / 10)[0]);
    }
}

/// Joined texts are all there, in order: each with the separator in front of it, but
/// for the first.
pub proof fn joining_adds_one_part(parts: Seq<Seq<char>>, last: Seq<char>, separator: Seq<char>)
    ensures
        joined(Seq::empty(), separator) == Seq::<char>::empty(),
        joined(parts.push(last), separator) == if parts.len() == 0 {
            last
        } else {
            joined(parts, separator) + separator + last
        },
{
    assert(parts.push(last).drop_last() =~= parts);
}

} // verus!
