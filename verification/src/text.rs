//! Dotted paths and decimal numbers.

use vstd::prelude::*;

verus! {

/// The path of `name` below `prefix`: the two separated by a dot, or the bare
/// name at the root.
pub open spec fn joined(prefix: Option<Seq<char>>, name: Seq<char>) -> Seq<char> {
    match prefix {
        None => name,
        Some(p) => p + seq!['.'] + name,
    }
}

/// Builds the path of `name` below `prefix`.
pub fn join(prefix: &Option<String>, name: &str) -> (path: String)
    ensures
        path@ == joined(option_text(*prefix), name@),
{
    match prefix {
        None => name.to_owned(),
        Some(p) => {
            let mut path = p.clone();
            path.append(".");
            path.append(name);
            proof {
                reveal_strlit(".");
                assert("."@ =~= seq!['.']);
            }
            path
        },
    }
}

/// The characters of an optional string.
pub open spec fn option_text(text: Option<String>) -> Option<Seq<char>> {
    match text {
        None => None,
        Some(t) => Some(t@),
    }
}

/// The decimal digit of a number below ten.
pub open spec fn digit(d: nat) -> char {
    (48 + d) as char
}

/// A number in decimal, without leading zeros.
pub open spec fn decimal(n: nat) -> Seq<char>
    decreases n,
{
    if n < 10 {
        seq![digit(n)]
    } else {
        decimal(n / 10).push(digit(n % 10))
    }
}

fn digit_text(d: usize) -> (text: &'static str)
    requires
        d < 10,
    ensures
        text@ == seq![digit(d as nat)],
{
    proof {
        reveal_strlit("0");
        reveal_strlit("1");
        reveal_strlit("2");
        reveal_strlit("3");
        reveal_strlit("4");
        reveal_strlit("5");
        reveal_strlit("6");
        reveal_strlit("7");
        reveal_strlit("8");
        reveal_strlit("9");
    }
    match d {
        0 => "0",
        1 => "1",
        2 => "2",
        3 => "3",
        4 => "4",
        5 => "5",
        6 => "6",
        7 => "7",
        8 => "8",
        _ => "9",
    }
}

/// Writes a number in decimal behind `prefix`.
pub fn append_decimal(prefix: &str, n: usize) -> (text: String)
    ensures
        text@ == prefix@ + decimal(n as nat),
    decreases n,
{
    if n < 10 {
        let mut text = prefix.to_owned();
        text.append(digit_text(n));
        text
    } else {
        let mut text = append_decimal(prefix, n / 10);
        text.append(digit_text(n % 10));
        assert(text@ =~= prefix@ + decimal(n as nat));
        text
    }
}

/// Tells whether `text` starts with `prefix`.
pub(crate) fn has_prefix(text: &str, prefix: &str) -> (res: bool)
    ensures
        res == prefix@.is_prefix_of(text@),
{
    let length: usize = prefix.unicode_len();
    if text.unicode_len() < length {
        return false;
    }
    let mut i: usize = 0;
    while i < length
        invariant
            i <= length,
            length == prefix@.len(),
            length <= text@.len(),
            forall|j: int| 0 <= j < i ==> prefix@[j] == text@[j],
        decreases length - i,
    {
        if text.get_char(i) != prefix.get_char(i) {
            assert(prefix@[i as int] != text@.take(length as int)[i as int]);
            return false;
        }
        i += 1;
    }
    assert(prefix@ =~= text@.take(length as int));
    true
}

/// Joining is associative: going down by `a` and then by `b` leads to the same
/// path as going down by `a.b` at once.
pub proof fn joined_is_associative(prefix: Option<Seq<char>>, a: Seq<char>, b: Seq<char>)
    ensures
        joined(Some(joined(prefix, a)), b) == joined(prefix, joined(Some(a), b)),
{
    assert(joined(Some(joined(prefix, a)), b) =~= joined(prefix, joined(Some(a), b)));
}

/// Different names below one prefix have different paths.
pub proof fn joined_is_injective(prefix: Option<Seq<char>>, a: Seq<char>, b: Seq<char>)
    requires
        joined(prefix, a) == joined(prefix, b),
    ensures
        a == b,
{
    if let Some(p) = prefix {
        let x = joined(prefix, a);
        assert(a =~= x.skip(p.len() as int + 1));
        assert(b =~= x.skip(p.len() as int + 1));
    }
}

/// Two numbers with the same decimal writing are equal.
pub proof fn decimal_is_injective(m: nat, n: nat)
    requires
        decimal(m) == decimal(n),
    ensures
        m == n,
    decreases m,
{
    decimal_is_not_empty(m);
    decimal_is_not_empty(n);
    assert(decimal(m).last() == decimal(n).last());
    if m < 10 {
        if n >= 10 {
            decimal_is_not_empty(n / 10);
            assert(decimal(n).len() > 1);
        }
    } else {
        decimal_is_not_empty(m / 10);
        assert(decimal(m).len() > 1);
        assert(decimal(m / 10) =~= decimal(m).drop_last());
        assert(decimal(n / 10) =~= decimal(n).drop_last());
        decimal_is_injective(m / 10, n / 10);
    }
}

proof fn decimal_is_not_empty(n: nat)
    ensures
        decimal(n).len() > 0,
        decimal(n).last() == digit(n % 10),
{
}

/// The number that decimal digits stand for.
pub open spec fn read_decimal(text: Seq<char>) -> int
    decreases text.len(),
{
    if text.len() == 0 {
        0
    } else {
        10 * read_decimal(text.drop_last()) + (text.last() as int - '0' as int)
    }
}

/// A number is written with digits that stand for it, the first of which is no zero unless
/// it is the only one.
pub proof fn decimal_stands_for_its_number(n: nat)
    ensures
        read_decimal(decimal(n)) == n,
        decimal(n).len() > 0,
        decimal(n)[0] == '0' ==> n == 0,
        n == 0 ==> decimal(n) == seq!['0'],
        forall|i: int| 0 <= i < decimal(n).len() ==> '0' <= #[trigger] decimal(n)[i] <= '9',
    decreases n,
{
    let text = decimal(n);
    if n < 10 {
        assert(text.drop_last() =~= Seq::empty());
        reveal_with_fuel(read_decimal, 2);
    } else {
        decimal_stands_for_its_number(n / 10);
        assert(text.drop_last() =~= decimal(n / 10));
    }
}

} // verus!
