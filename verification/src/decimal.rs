//! Decimal text of integers.
use vstd::prelude::*;

verus! {

/// The decimal digit for `d`, a number below ten.
pub open spec fn digit(d: nat) -> char {
    (48 + d) as char
}

/// The decimal digits of `n`, most significant first, without leading zeros.
pub open spec fn digits(n: nat) -> Seq<char>
    decreases n,
{
    if n < 10 {
        seq![digit(n)]
    } else {
        digits(n / 10).push(digit(n % 10))
    }
}

/// The decimal text of `n`, with a minus sign in front when it is negative.
pub open spec fn decimal(n: int) -> Seq<char> {
    if n < 0 {
        seq!['-'] + digits((-n) as nat)
    } else {
        digits(n as nat)
    }
}

/// The one-character text of a digit.
fn digit_text(d: u64) -> (res: &'static str)
    requires
        d < 10,
    ensures
        res@ == seq![digit(d as nat)],
{
    proof {
        reveal_strlit("0");
        reveal_strlit("1");
        reveal_strlit("2");
        reveal_strlit("3");
        reveal_strlit("4");
        reveal_strlit("5");
        reveal_strlit("6");
        reveal_strlit("7");
        reveal_strlit("8");
        reveal_strlit("9");
    }
    let res = match d {
        0 => "0",
        1 => "1",
        2 => "2",
        3 => "3",
        4 => "4",
        5 => "5",
        6 => "6",
        7 => "7",
        8 => "8",
        _ => "9",
    };
    assert(res@ =~= seq![digit(d as nat)]);
    res
}

/// Writes `n` in decimal.
pub fn unsigned_text(n: u64) -> (res: String)
    ensures
        res@ == digits(n as nat),
    decreases n,
{
    if n < 10 {
        digit_text(n).to_owned()
    } else {
        let mut res = unsigned_text(n / 10);
        let last = digit_text(n % 10);
        res.append(last);
        assert(res@ =~= digits((n / 10) as nat).push(digit((n % 10) as nat)));
        res
    }
}

/// Writes `n` in decimal, with a minus sign in front when it is negative.
pub fn signed_text(n: i32) -> (res: String)
    ensures
        res@ == decimal(n as int),
{
    if n < 0 {
        let magnitude: u64 = (-(n as i64)) as u64;
        let mut res = "-".to_owned();
        proof {
            reveal_strlit("-");
        }
        let rest = unsigned_text(magnitude);
        res.append(rest.as_str());
        assert(res@ =~= seq!['-'] + digits((-(n as int)) as nat));
        res
    } else {
        unsigned_text(n as u64)
    }
}

/// The number that a text of decimal digits stands for.
pub open spec fn number(text: Seq<char>) -> int
    decreases text.len(),
{
    if text.len() == 0 {
        0
    } else {
        10 * number(text.drop_last()) + (text.last() as int - '0' as int)
    }
}

/// Whether a text is made of decimal digits, at least one, and begins with a zero only if
/// it is the text of zero.
pub open spec fn plain_digits(text: Seq<char>) -> bool {
    &&& text.len() > 0
    &&& forall|i: int| 0 <= i < text.len() ==> '0' as int <= (#[trigger] text[i]) as int <= '9' as int
    &&& text[0] == '0' ==> text.len() == 1
}

proof fn lemma_digits(n: nat)
    ensures
        plain_digits(digits(n)),
        number(digits(n)) == n,
        n > 0 ==> digits(n)[0] != '0',
    decreases n,
{
    let last = digit(n % 10);
    assert(last as int == 48 + n % 10);
    if n < 10 {
        assert(digits(n).drop_last() =~= Seq::<char>::empty());
        assert(number(digits(n).drop_last()) == 0);
    } else {
        lemma_digits(n / 10);
        let front = digits(n / 10);
        assert(digits(n).drop_last() =~= front);
        assert forall|i: int| 0 <= i < digits(n).len() implies '0' as int <= (
        #[trigger] digits(n)[i]) as int <= '9' as int by {
            if i < front.len() {
                assert(digits(n)[i] == front[i]);
            }
        }
        assert(digits(n)[0] == front[0]);
    }
}

/// The decimal text of a number reads back as that number. It has no leading zeros, and a
/// minus sign in front exactly when the number is negative.
pub proof fn law_decimal_reads_back(n: int)
    ensures
        n >= 0 ==> plain_digits(decimal(n)) && number(decimal(n)) == n,
        n < 0 ==> decimal(n).len() > 0 && decimal(n)[0] == '-' && plain_digits(
            decimal(n).drop_first(),
        ) && number(decimal(n).drop_first()) == -n,
{
    if n < 0 {
        lemma_digits((-n) as nat);
        assert(decimal(n).drop_first() =~= digits((-n) as nat));
    } else {
        lemma_digits(n as nat);
    }
}

/// Different numbers have different decimal texts.
pub proof fn law_decimal_texts_differ(a: int, b: int)
    requires
        decimal(a) == decimal(b),
    ensures
        a == b,
{
    law_decimal_reads_back(a);
    law_decimal_reads_back(b);
}

} // verus!
