use vstd::prelude::*;

verus! {

/// The ASCII character of a decimal digit.
pub open spec fn digit_char(d: int) -> char {
    if d == 0 {
        '0'
    } else if d == 1 {
        '1'
    } else if d == 2 {
        '2'
    } else if d == 3 {
        '3'
    } else if d == 4 {
        '4'
    } else if d == 5 {
        '5'
    } else if d == 6 {
        '6'
    } else if d == 7 {
        '7'
    } else if d == 8 {
        '8'
    } else {
        '9'
    }
}

/// The shortest base-ten rendering of `n`, most significant digit first.
pub open spec fn decimal(n: nat) -> Seq<char>
    decreases n,
{
    if n < 10 {
        seq![digit_char(n as int)]
    } else {
        decimal(n / 10) + seq![digit_char((n % 10) as int)]
    }
}

fn digit_str(d: u64) -> (r: &'static str)
    requires
        d < 10,
    ensures
        r@ == seq![digit_char(d as int)],
{
    if d == 0 {
        proof { reveal_strlit("0"); }
        "0"
    } else if d == 1 {
        proof { reveal_strlit("1"); }
        "1"
    } else if d == 2 {
        proof { reveal_strlit("2"); }
        "2"
    } else if d == 3 {
        proof { reveal_strlit("3"); }
        "3"
    } else if d == 4 {
        proof { reveal_strlit("4"); }
        "4"
    } else if d == 5 {
        proof { reveal_strlit("5"); }
        "5"
    } else if d == 6 {
        proof { reveal_strlit("6"); }
        "6"
    } else if d == 7 {
        proof { reveal_strlit("7"); }
        "7"
    } else if d == 8 {
        proof { reveal_strlit("8"); }
        "8"
    } else {
        proof { reveal_strlit("9"); }
        "9"
    }
}

/// The two-digit rendering of `n` (below one hundred), with a leading zero when needed.
pub open spec fn two_digits(n: nat) -> Seq<char> {
    seq![digit_char((n / 10) as int), digit_char((n % 10) as int)]
}

/// Renders `n` (below one hundred) in two digits.
pub fn two_digit_string(n: u64) -> (s: String)
    requires
        n < 100,
    ensures
        s@ == two_digits(n as nat),
{
    let s = concat_str(digit_str(n / 10), digit_str(n % 10));
    proof {
        assert(s@ =~= two_digits(n as nat));
    }
    s
}

/// Renders `n` in base ten.
pub fn decimal_string(n: u64) -> (s: String)
    ensures
        s@ == decimal(n as nat),
{
    let mut rest: u64 = n / 10;
    let mut s = String::from_str(digit_str(n % 10));
    proof {
        assert(s@ == seq![digit_char((n % 10) as int)]);
    }
    while rest > 0
        invariant
            rest == 0 ==> s@ == decimal(n as nat),
            rest > 0 ==> decimal(n as nat) == decimal(rest as nat) + s@,
        decreases rest,
    {
        let d = rest % 10;
        let mut t = String::from_str(digit_str(d));
        t.append(s.as_str());
        proof {
            if rest >= 10 {
                assert(decimal(rest as nat) == decimal((rest / 10) as nat) + seq![digit_char(d as int)]);
                assert(decimal(n as nat) == decimal((rest / 10) as nat) + t@);
            } else {
                assert(decimal(rest as nat) == seq![digit_char(d as int)]);
            }
        }
        s = t;
        rest = rest / 10;
    }
    s
}

/// The text held by an optional string.
pub open spec fn opt_text(o: Option<String>) -> Option<Seq<char>> {
    match o {
        Some(s) => Some(s@),
        None => None,
    }
}

/// `a` followed by `b`.
pub fn concat_str(a: &str, b: &str) -> (s: String)
    ensures
        s@ == a@ + b@,
{
    let mut s = String::from_str(a);
    s.append(b);
    s
}

/// A rendering has at least one digit.
pub proof fn lemma_decimal_nonempty(n: nat)
    ensures
        decimal(n).len() >= 1,
    decreases n,
{
    if n >= 10 {
        lemma_decimal_nonempty(n / 10);
    }
}

/// A rendering holds only digits, so no space.
pub proof fn lemma_no_space_in_decimal(n: nat)
    ensures
        forall|i: int| 0 <= i < decimal(n).len() ==> decimal(n)[i] != ' ',
    decreases n,
{
    if n >= 10 {
        lemma_no_space_in_decimal(n / 10);
        let head = decimal(n / 10);
        assert forall|i: int| 0 <= i < decimal(n).len() implies decimal(n)[i] != ' ' by {
            if i < head.len() {
                assert(decimal(n)[i] == head[i]);
            } else {
                assert(decimal(n)[i] == digit_char((n % 10) as int));
            }
        }
    }
}

/// Distinct numbers have distinct renderings.
pub proof fn lemma_decimal_injective(a: nat, b: nat)
    requires
        decimal(a) == decimal(b),
    ensures
        a == b,
    decreases a,
{
    lemma_decimal_nonempty(a / 10);
    lemma_decimal_nonempty(b / 10);
    if a < 10 && b < 10 {
        assert(decimal(a)[0] == digit_char(a as int));
        assert(decimal(b)[0] == digit_char(b as int));
    } else if a >= 10 && b >= 10 {
        assert(decimal(a).last() == digit_char((a % 10) as int));
        assert(decimal(b).last() == digit_char((b % 10) as int));
        assert(decimal(a / 10) =~= decimal(a).drop_last());
        assert(decimal(b / 10) =~= decimal(b).drop_last());
        lemma_decimal_injective(a / 10, b / 10);
    } else {
        assert(decimal(a).len() != decimal(b).len());
    }
}

/// The number that a string of ASCII decimal digits denotes, most significant digit first: each
/// character counts for its code less that of `0`.
pub open spec fn digits_value(s: Seq<char>) -> int
    decreases s.len(),
{
    if s.len() == 0 {
        0
    } else {
        digits_value(s.drop_last()) * 10 + ((s.last() as u32) - 48)
    }
}

/// Reading a rendering back gives the number: `decimal(n)` holds the ASCII digits of `n`, most
/// significant first, and `two_digits(n)` those of `n` below one hundred, with a leading zero.
pub proof fn lemma_decimal_reads_back(n: nat)
    ensures
        digits_value(decimal(n)) == n,
        forall|i: int| 0 <= i < decimal(n).len() ==> '0' <= #[trigger] decimal(n)[i] <= '9',
        n < 100 ==> digits_value(two_digits(n)) == n,
        n < 100 ==> two_digits(n).len() == 2,
    decreases n,
{
    lemma_digit_char_code(n % 10);
    if n >= 10 {
        lemma_decimal_reads_back(n / 10);
        let head = decimal(n / 10);
        assert(decimal(n).drop_last() =~= head);
        assert(decimal(n).last() == digit_char((n % 10) as int));
        assert(digits_value(decimal(n)) == digits_value(head) * 10 + (n % 10));
        assert(n == (n / 10) * 10 + n % 10);
        assert forall|i: int| 0 <= i < decimal(n).len() implies '0' <= #[trigger] decimal(n)[i] <= '9' by {
            if i < head.len() {
                assert(decimal(n)[i] == head[i]);
            }
        }
    } else {
        let d = seq![digit_char(n as int)];
        assert(d.drop_last() =~= Seq::<char>::empty());
        assert(digits_value(Seq::<char>::empty()) == 0);
        assert(digits_value(d) == n);
    }
    if n < 100 {
        lemma_digit_char_code(n / 10);
        let t = two_digits(n);
        let h = seq![digit_char((n / 10) as int)];
        assert(t.drop_last() =~= h);
        assert(h.drop_last() =~= Seq::<char>::empty());
        assert(digits_value(Seq::<char>::empty()) == 0);
        assert(digits_value(h) == n / 10);
        assert(digits_value(t) == (n / 10) * 10 + n % 10);
    }
}

/// The digit `d` is the ASCII character `0` plus `d`.
proof fn lemma_digit_char_code(d: nat)
    requires
        d < 10,
    ensures
        digit_char(d as int) as u32 == 48 + d,
        '0' <= digit_char(d as int) <= '9',
{
}

} // verus!
