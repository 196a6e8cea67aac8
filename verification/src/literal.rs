//! Reading the integer value written in a literal token, as `i128::from_str_radix`
//! reads it: an optional sign, then one or more digits of the radix.
use vstd::prelude::*;

verus! {

/// The value of a digit character (`0`-`9`, then `a`-`z` or `A`-`Z` from ten
/// on); 36 for any other character.
pub open spec fn digit_value(c: char) -> nat {
    if '0' <= c && c <= '9' {
        (c as nat - '0' as nat) as nat
    } else if 'a' <= c && c <= 'z' {
        (c as nat - 'a' as nat + 10) as nat
    } else if 'A' <= c && c <= 'Z' {
        (c as nat - 'A' as nat + 10) as nat
    } else {
        36
    }
}

/// Every character of `s` is a digit of the radix.
pub open spec fn all_digits(s: Seq<char>, radix: nat) -> bool {
    forall|i: int| 0 <= i < s.len() ==> #[trigger] digit_value(s[i]) < radix
}

/// The number that the digits `s` write in the radix, most significant first.
pub open spec fn digits_value(s: Seq<char>, radix: nat) -> nat
    decreases s.len(),
{
    if s.len() == 0 {
        0
    } else {
        digits_value(s.drop_last(), radix) * radix + digit_value(s.last())
    }
}

/// What `i128::from_str_radix(s, radix)` gives: `Some` value when `s` is an
/// optional `+` or `-` followed by at least one digit of the radix and the
/// value lies in the range of `i128`, else `None`.
pub open spec fn int_value(s: Seq<char>, radix: nat) -> Option<int> {
    if s.len() > 0 && s[0] == '-' {
        let d = s.drop_first();
        if d.len() > 0 && all_digits(d, radix) && digits_value(d, radix) <= 0x8000_0000_0000_0000_0000_0000_0000_0000 {
            Some(-(digits_value(d, radix) as int))
        } else {
            None
        }
    } else {
        let d = if s.len() > 0 && s[0] == '+' {
            s.drop_first()
        } else {
            s
        };
        if d.len() > 0 && all_digits(d, radix) && digits_value(d, radix) <= 0x7fff_ffff_ffff_ffff_ffff_ffff_ffff_ffff {
            Some(digits_value(d, radix) as int)
        } else {
            None
        }
    }
}

/// `s` with every leading copy of `0` followed by `marker` removed, as
/// `str::trim_start_matches` removes a prefix.
pub open spec fn trim_radix_prefix(s: Seq<char>, marker: char) -> Seq<char>
    decreases s.len(),
{
    if s.len() >= 2 && s[0] == '0' && s[1] == marker {
        trim_radix_prefix(s.skip(2), marker)
    } else {
        s
    }
}

proof fn lemma_digits_value_prefix(s: Seq<char>, k: int, radix: nat)
    requires
        0 <= k <= s.len(),
        radix >= 1,
    ensures
        digits_value(s.subrange(0, k), radix) <= digits_value(s, radix),
    decreases s.len() - k,
{
    if k < s.len() {
        lemma_digits_value_prefix(s, k + 1, radix);
        let p = s.subrange(0, k + 1);
        assert(p.drop_last() =~= s.subrange(0, k));
        let v = digits_value(s.subrange(0, k), radix);
        assert(v * radix >= v) by (nonlinear_arith)
            requires
                radix >= 1,
        ;
    } else {
        assert(s.subrange(0, k) =~= s);
    }
}

fn digit_of(c: char) -> (r: u32)
    ensures
        r == digit_value(c),
{
    if '0' <= c && c <= '9' {
        (c as u32) - ('0' as u32)
    } else if 'a' <= c && c <= 'z' {
        (c as u32) - ('a' as u32) + 10
    } else if 'A' <= c && c <= 'Z' {
        (c as u32) - ('A' as u32) + 10
    } else {
        36
    }
}

/// The digit characters in order of value, as `from_str_radix` reads them:
/// `0`-`9`, then the letters in lower case.
pub open spec fn lower_digits() -> Seq<char> {
    seq!['0','1','2','3','4','5','6','7','8','9','a','b','c','d','e','f','g','h','i','j','k','l','m','n','o','p','q','r','s','t','u','v','w','x','y','z']
}

/// The digit characters in order of value with the letters in upper case.
pub open spec fn upper_digits() -> Seq<char> {
    seq!['0','1','2','3','4','5','6','7','8','9','A','B','C','D','E','F','G','H','I','J','K','L','M','N','O','P','Q','R','S','T','U','V','W','X','Y','Z']
}

proof fn lemma_digit_tables(i: int)
    requires
        0 <= i < 36,
    ensures
        digit_value(lower_digits()[i]) == i,
        digit_value(upper_digits()[i]) == i,
{
    if i == 0 {
        assert(lower_digits()[0] == '0');
        assert(upper_digits()[0] == '0');
    }
    if i == 1 {
        assert(lower_digits()[1] == '1');
        assert(upper_digits()[1] == '1');
    }
    if i == 2 {
        assert(lower_digits()[2] == '2');
        assert(upper_digits()[2] == '2');
    }
    if i == 3 {
        assert(lower_digits()[3] == '3');
        assert(upper_digits()[3] == '3');
    }
    if i == 4 {
        assert(lower_digits()[4] == '4');
        assert(upper_digits()[4] == '4');
    }
    if i == 5 {
        assert(lower_digits()[5] == '5');
        assert(upper_digits()[5] == '5');
    }
    if i == 6 {
        assert(lower_digits()[6] == '6');
        assert(upper_digits()[6] == '6');
    }
    if i == 7 {
        assert(lower_digits()[7] == '7');
        assert(upper_digits()[7] == '7');
    }
    if i == 8 {
        assert(lower_digits()[8] == '8');
        assert(upper_digits()[8] == '8');
    }
    if i == 9 {
        assert(lower_digits()[9] == '9');
        assert(upper_digits()[9] == '9');
    }
    if i == 10 {
        assert(lower_digits()[10] == 'a');
        assert(upper_digits()[10] == 'A');
    }
    if i == 11 {
        assert(lower_digits()[11] == 'b');
        assert(upper_digits()[11] == 'B');
    }
    if i == 12 {
        assert(lower_digits()[12] == 'c');
        assert(upper_digits()[12] == 'C');
    }
    if i == 13 {
        assert(lower_digits()[13] == 'd');
        assert(upper_digits()[13] == 'D');
    }
    if i == 14 {
        assert(lower_digits()[14] == 'e');
        assert(upper_digits()[14] == 'E');
    }
    if i == 15 {
        assert(lower_digits()[15] == 'f');
        assert(upper_digits()[15] == 'F');
    }
    if i == 16 {
        assert(lower_digits()[16] == 'g');
        assert(upper_digits()[16] == 'G');
    }
    if i == 17 {
        assert(lower_digits()[17] == 'h');
        assert(upper_digits()[17] == 'H');
    }
    if i == 18 {
        assert(lower_digits()[18] == 'i');
        assert(upper_digits()[18] == 'I');
    }
    if i == 19 {
        assert(lower_digits()[19] == 'j');
        assert(upper_digits()[19] == 'J');
    }
    if i == 20 {
        assert(lower_digits()[20] == 'k');
        assert(upper_digits()[20] == 'K');
    }
    if i == 21 {
        assert(lower_digits()[21] == 'l');
        assert(upper_digits()[21] == 'L');
    }
    if i == 22 {
        assert(lower_digits()[22] == 'm');
        assert(upper_digits()[22] == 'M');
    }
    if i == 23 {
        assert(lower_digits()[23] == 'n');
        assert(upper_digits()[23] == 'N');
    }
    if i == 24 {
        assert(lower_digits()[24] == 'o');
        assert(upper_digits()[24] == 'O');
    }
    if i == 25 {
        assert(lower_digits()[25] == 'p');
        assert(upper_digits()[25] == 'P');
    }
    if i == 26 {
        assert(lower_digits()[26] == 'q');
        assert(upper_digits()[26] == 'Q');
    }
    if i == 27 {
        assert(lower_digits()[27] == 'r');
        assert(upper_digits()[27] == 'R');
    }
    if i == 28 {
        assert(lower_digits()[28] == 's');
        assert(upper_digits()[28] == 'S');
    }
    if i == 29 {
        assert(lower_digits()[29] == 't');
        assert(upper_digits()[29] == 'T');
    }
    if i == 30 {
        assert(lower_digits()[30] == 'u');
        assert(upper_digits()[30] == 'U');
    }
    if i == 31 {
        assert(lower_digits()[31] == 'v');
        assert(upper_digits()[31] == 'V');
    }
    if i == 32 {
        assert(lower_digits()[32] == 'w');
        assert(upper_digits()[32] == 'W');
    }
    if i == 33 {
        assert(lower_digits()[33] == 'x');
        assert(upper_digits()[33] == 'X');
    }
    if i == 34 {
        assert(lower_digits()[34] == 'y');
        assert(upper_digits()[34] == 'Y');
    }
    if i == 35 {
        assert(lower_digits()[35] == 'z');
        assert(upper_digits()[35] == 'Z');
    }
}

/// A single digit reads as its place among the digits, in either case, when
/// that place is below the radix, and is refused otherwise.
pub proof fn lemma_single_digit_value(i: int, radix: nat)
    requires
        2 <= radix <= 36,
        0 <= i < 36,
    ensures
        i < radix ==> int_value(seq![lower_digits()[i]], radix) == Some(i),
        i < radix ==> int_value(seq![upper_digits()[i]], radix) == Some(i),
        i >= radix ==> int_value(seq![lower_digits()[i]], radix).is_none(),
        i >= radix ==> int_value(seq![upper_digits()[i]], radix).is_none(),
{
    assert(lower_digits().len() == 36 && upper_digits().len() == 36);
    assert(digit_value(lower_digits()[i]) == i && digit_value(upper_digits()[i]) == i) by {
        lemma_digit_tables(i);
    }
    let lo = lower_digits()[i];
    let up = upper_digits()[i];
    assert(digit_value(lo) == i);
    assert(digit_value(up) == i);
    assert(digit_value('-') == 36);
    assert(digit_value('+') == 36);
    assert(seq![lo].drop_last() =~= Seq::<char>::empty());
    assert(seq![up].drop_last() =~= Seq::<char>::empty());
    assert(digits_value(Seq::<char>::empty(), radix) == 0);
    assert(seq![lo].last() == lo && seq![up].last() == up);
    assert(digits_value(seq![lo], radix) == digits_value(seq![lo].drop_last(), radix) * radix + digit_value(lo));
    assert(digits_value(seq![up], radix) == digits_value(seq![up].drop_last(), radix) * radix + digit_value(up));
    assert(digits_value(seq![lo], radix) == i);
    assert(digits_value(seq![up], radix) == i);
    assert(seq![lo][0] == lo);
    assert(seq![up][0] == up);
}

/// Reads `s` in the radix as `i128::from_str_radix` does.
pub fn parse_i128(s: &str, radix: u32) -> (r: Option<i128>)
    requires
        2 <= radix <= 36,
    ensures
        match r {
            Some(v) => int_value(s@, radix as nat) == Some(v as int),
            None => int_value(s@, radix as nat).is_none(),
        },
{
    let n = s.unicode_len();
    let mut start: usize = 0;
    let mut negative = false;
    if n > 0 {
        let c = s.get_char(0);
        if c == '-' {
            negative = true;
            start = 1;
        } else if c == '+' {
            start = 1;
        }
    }
    let ghost d = s@.subrange(start as int, n as int);
    proof {
        if start == 1 {
            assert(d =~= s@.drop_first());
        } else {
            assert(d =~= s@);
        }
    }
    if start == n {
        return None;
    }
    let limit: u128 = if negative {
        0x8000_0000_0000_0000_0000_0000_0000_0000
    } else {
        0x7fff_ffff_ffff_ffff_ffff_ffff_ffff_ffff
    };
    let mut acc: u128 = 0;
    let mut i: usize = start;
    while i < n
        invariant
            start <= i <= n,
            n == s@.len(),
            start < n,
            d == s@.subrange(start as int, n as int),
            2 <= radix <= 36,
            all_digits(d.subrange(0, i - start), radix as nat),
            acc == digits_value(d.subrange(0, i - start), radix as nat),
            acc <= limit,
            limit >= 0x7fff_ffff_ffff_ffff_ffff_ffff_ffff_ffff,
            negative ==> limit == 0x8000_0000_0000_0000_0000_0000_0000_0000,
            !negative ==> limit == 0x7fff_ffff_ffff_ffff_ffff_ffff_ffff_ffff,
            negative ==> s@.len() > 0 && s@[0] == '-' && start == 1,
            start <= 1,
            start == 1 ==> d == s@.drop_first(),
            start == 0 ==> d == s@,
            start == 0 ==> !(s@.len() > 0 && (s@[0] == '-' || s@[0] == '+')),
            !negative ==> (start == 1 <==> (s@.len() > 0 && s@[0] == '+')),
        decreases n - i,
    {
        let c = s.get_char(i);
        let dv = digit_of(c);
        let k = i - start;
        proof {
            assert(d[k as int] == c);
        }
        if dv >= radix {
            proof {
                assert(!(digit_value(d[k as int]) < radix));
                assert(!all_digits(d, radix as nat));
            }
            return None;
        }
        let ghost prefix = d.subrange(0, k + 1);
        proof {
            assert(prefix.drop_last() =~= d.subrange(0, k as int));
            assert(prefix.last() == c);
        }
        if acc > (limit - dv as u128) / (radix as u128) {
            proof {
                let r = radix as int;
                let a = acc as int;
                let q = (limit - dv) as int;
                assert(a * r + dv > limit) by (nonlinear_arith)
                    requires
                        a > q / r,
                        r >= 2,
                        q >= 0,
                        q == limit - dv,
                ;
                lemma_digits_value_prefix(d, k + 1, radix as nat);
            }
            return None;
        }
        proof {
            let r = radix as int;
            let a = acc as int;
            let q = (limit - dv) as int;
            assert(a * r + dv <= limit) by (nonlinear_arith)
                requires
                    a <= q / r,
                    r >= 2,
                    q >= 0,
                    q == limit - dv,
            ;
        }
        acc = acc * (radix as u128) + (dv as u128);
        i = i + 1;
        proof {
            assert forall|j: int| 0 <= j < prefix.len() implies #[trigger] digit_value(prefix[j]) < radix by {
                if j < k {
                    assert(prefix[j] == d.subrange(0, k as int)[j]);
                }
            }
        }
    }
    proof {
        assert(d.subrange(0, n - start) =~= d);
    }
    if negative {
        if acc == 0x8000_0000_0000_0000_0000_0000_0000_0000 {
            Some(i128::MIN)
        } else {
            Some(-(acc as i128))
        }
    } else {
        Some(acc as i128)
    }
}

} // verus!
