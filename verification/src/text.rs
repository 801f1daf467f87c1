//! The text form of hash values: decimal words joined by `-`.

use vstd::prelude::*;

verus! {

/// The character that stands for the decimal digit `d`, for `0 <= d <= 9`.
pub open spec fn digit_char(d: int) -> char {
    if d == 0 {
        '0'
    } else if d == 1 {
        '1'
    } else if d == 2 {
        '2'
    } else if d == 3 {
        '3'
    } else if d == 4 {
        '4'
    } else if d == 5 {
        '5'
    } else if d == 6 {
        '6'
    } else if d == 7 {
        '7'
    } else if d == 8 {
        '8'
    } else {
        '9'
    }
}

/// The decimal numeral of `n`: its digits from the most significant one
/// down, without leading zeros; the numeral of zero is `0`.
pub open spec fn decimal(n: nat) -> Seq<char>
    decreases n,
{
    if n < 10 {
        seq![digit_char(n as int)]
    } else {
        decimal(n / 10).push(digit_char((n % 10) as int))
    }
}

/// The decimal numerals of `words`, in order, with a `-` between each two.
pub open spec fn dashed(words: Seq<u64>) -> Seq<char>
    decreases words.len(),
{
    if words.len() == 0 {
        Seq::empty()
    } else if words.len() == 1 {
        decimal(words[0] as nat)
    } else {
        dashed(words.drop_last()) + seq!['-'] + decimal(words.last() as nat)
    }
}

/// Whether `c` is one of the ten digits.
pub open spec fn is_digit(c: char) -> bool {
    exists|d: int| 0 <= d <= 9 && c == digit_char(d)
}

/// A decimal numeral is not empty and holds digits only.
pub proof fn lemma_decimal_is_digits(n: nat)
    ensures
        decimal(n).len() >= 1,
        forall|i: int| 0 <= i < decimal(n).len() ==> is_digit(#[trigger] decimal(n)[i]),
        n >= 10 ==> decimal(n).len() >= 2,
    decreases n,
{
    if n < 10 {
        assert(is_digit(digit_char(n as int)));
    } else {
        lemma_decimal_is_digits(n / 10);
        assert(is_digit(digit_char((n % 10) as int)));
    }
}

/// A number is determined by its decimal numeral.
pub proof fn lemma_decimal_determines_number(a: nat, b: nat)
    requires
        decimal(a) == decimal(b),
    ensures
        a == b,
    decreases a,
{
    lemma_decimal_is_digits(a);
    lemma_decimal_is_digits(b);
    if a < 10 {
        assert(decimal(a).len() == 1);
        assert(b < 10);
        assert(decimal(a)[0] == digit_char(a as int));
        assert(decimal(b)[0] == digit_char(b as int));
    } else {
        assert(decimal(a).len() >= 2);
        assert(b >= 10);
        let front_a: Seq<char> = decimal(a / 10);
        let front_b: Seq<char> = decimal(b / 10);
        assert(front_a =~= decimal(a).drop_last());
        assert(front_b =~= decimal(b).drop_last());
        assert(decimal(a).last() == digit_char((a % 10) as int));
        assert(decimal(b).last() == digit_char((b % 10) as int));
        lemma_decimal_determines_number(a / 10, b / 10);
        assert(a % 10 == b % 10);
    }
}

/// The words of a text form have no `-` in them, so the last `-` of a text
/// form stands before its last word.
proof fn lemma_last_numeral(front_a: Seq<char>, a: nat, front_b: Seq<char>, b: nat)
    requires
        front_a + seq!['-'] + decimal(a) == front_b + seq!['-'] + decimal(b),
    ensures
        front_a == front_b,
        a == b,
{
    lemma_decimal_is_digits(a);
    lemma_decimal_is_digits(b);
    let text_a: Seq<char> = front_a + seq!['-'] + decimal(a);
    let text_b: Seq<char> = front_b + seq!['-'] + decimal(b);
    let len_a: int = decimal(a).len() as int;
    let len_b: int = decimal(b).len() as int;
    assert(!is_digit('-'));
    if len_a < len_b {
        let i: int = text_a.len() - len_a - 1;
        assert(text_a[i] == '-');
        assert(text_b[i] == decimal(b)[i - front_b.len() - 1]);
        assert(false);
    }
    if len_b < len_a {
        let i: int = text_b.len() - len_b - 1;
        assert(text_b[i] == '-');
        assert(text_a[i] == decimal(a)[i - front_a.len() - 1]);
        assert(false);
    }
    assert(front_a =~= text_a.subrange(0, front_a.len() as int));
    assert(front_b =~= text_b.subrange(0, front_b.len() as int));
    assert(decimal(a) =~= text_a.subrange(front_a.len() as int + 1, text_a.len() as int));
    assert(decimal(b) =~= text_b.subrange(front_b.len() as int + 1, text_b.len() as int));
    lemma_decimal_determines_number(a, b);
}

/// Words are determined by their text form: of two sequences of equally
/// many words with one text form, each word of the one is that word of the
/// other.
pub proof fn lemma_dashed_determines_words(a: Seq<u64>, b: Seq<u64>)
    requires
        a.len() == b.len(),
        dashed(a) == dashed(b),
    ensures
        a == b,
    decreases a.len(),
{
    if a.len() == 0 {
        assert(a =~= b);
    } else if a.len() == 1 {
        lemma_decimal_determines_number(a[0] as nat, b[0] as nat);
        assert(a =~= b);
    } else {
        lemma_last_numeral(
            dashed(a.drop_last()),
            a.last() as nat,
            dashed(b.drop_last()),
            b.last() as nat,
        );
        lemma_dashed_determines_words(a.drop_last(), b.drop_last());
        assert(a =~= a.drop_last().push(a.last()));
        assert(b =~= b.drop_last().push(b.last()));
    }
}

/// The one-character text of the digit `d`.
fn digit_str(d: u64) -> (s: &'static str)
    requires
        d < 10,
    ensures
        s@ == seq![digit_char(d as int)],
{
    proof {
        reveal_strlit("0");
        reveal_strlit("1");
        reveal_strlit("2");
        reveal_strlit("3");
        reveal_strlit("4");
        reveal_strlit("5");
        reveal_strlit("6");
        reveal_strlit("7");
        reveal_strlit("8");
        reveal_strlit("9");
    }
    let s = if d == 0 {
        "0"
    } else if d == 1 {
        "1"
    } else if d == 2 {
        "2"
    } else if d == 3 {
        "3"
    } else if d == 4 {
        "4"
    } else if d == 5 {
        "5"
    } else if d == 6 {
        "6"
    } else if d == 7 {
        "7"
    } else if d == 8 {
        "8"
    } else {
        "9"
    };
    assert(s@ =~= seq![digit_char(d as int)]);
    s
}

/// Writes `n` as a decimal numeral.
pub fn decimal_string(n: u64) -> (s: String)
    ensures
        s@ == decimal(n as nat),
    decreases n,
{
    if n < 10 {
        String::from_str(digit_str(n))
    } else {
        let s = decimal_string(n / 10).concat(digit_str(n % 10));
        assert(s@ =~= decimal(n as nat));
        s
    }
}

/// Writes `words` as decimal numerals joined by `-`.
pub fn dashed_string(words: &[u64]) -> (s: String)
    ensures
        s@ == dashed(words@),
{
    let mut s = String::new();
    let mut i: usize = 0;
    while i < words.len()
        invariant
            i <= words@.len(),
            s@ == dashed(words@.take(i as int)),
        decreases words@.len() - i,
    {
        let ghost before = words@.take(i as int);
        let ghost after = words@.take(i + 1);
        if i > 0 {
            proof {
                reveal_strlit("-");
            }
            s.append("-");
            assert(s@ =~= dashed(before) + seq!['-']);
        }
        let numeral = decimal_string(words[i]);
        s.append(numeral.as_str());
        proof {
            assert(after.drop_last() =~= before);
            assert(after.last() == words@[i as int]);
            if i == 0 {
                assert(s@ =~= decimal(words@[0] as nat));
            }
        }
        i += 1;
    }
    assert(words@.take(i as int) =~= words@);
    s
}

} // verus!
