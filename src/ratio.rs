//! A count of successes over a count of trials, and its text forms.
use vstd::prelude::*;
use vstd::string::StringExecFns;

verus! {

/// `num` out of `denom`.
#[derive(Copy, Clone, Debug)]
pub struct Ratio {
    pub num: usize,
    pub denom: usize,
}

/// The character of a decimal digit.
pub open spec fn digit_char(d: nat) -> char {
    if d == 0 {
        '0'
    } else if d == 1 {
        '1'
    } else if d == 2 {
        '2'
    } else if d == 3 {
        '3'
    } else if d == 4 {
        '4'
    } else if d == 5 {
        '5'
    } else if d == 6 {
        '6'
    } else if d == 7 {
        '7'
    } else if d == 8 {
        '8'
    } else {
        '9'
    }
}

/// `n` written in decimal, without leading zeros.
pub open spec fn decimal(n: nat) -> Seq<char>
    decreases n,
{
    if n < 10 {
        seq![digit_char(n)]
    } else {
        decimal(n / 10) + seq![digit_char(n % 10)]
    }
}

/// `100 * num / denom` in tenths, rounded to the nearest tenth, ties to the
/// even tenth.
pub open spec fn percent_tenths(num: nat, denom: nat) -> nat
    recommends
        denom > 0,
{
    let q = (1000 * num) / denom;
    let rem = (1000 * num) % denom;
    if 2 * rem > denom || (2 * rem == denom && q % 2 == 1) {
        q + 1
    } else {
        q
    }
}

/// The percentage with one decimal place and a `%` sign; with no trials it
/// is `NaN%` for 0 successes and `inf%` otherwise.
pub open spec fn percent_text(num: nat, denom: nat) -> Seq<char> {
    if denom == 0 {
        if num == 0 {
            seq!['N', 'a', 'N', '%']
        } else {
            seq!['i', 'n', 'f', '%']
        }
    } else {
        decimal(percent_tenths(num, denom) / 10) + seq!['.', digit_char(percent_tenths(num, denom) % 10), '%']
    }
}

fn digit_text(d: u128) -> (r: &'static str)
    requires
        d < 10,
    ensures
        r@ == seq![digit_char(d as nat)],
{
    if d == 0 {
        proof { reveal_strlit("0"); }
        "0"
    } else if d == 1 {
        proof { reveal_strlit("1"); }
        "1"
    } else if d == 2 {
        proof { reveal_strlit("2"); }
        "2"
    } else if d == 3 {
        proof { reveal_strlit("3"); }
        "3"
    } else if d == 4 {
        proof { reveal_strlit("4"); }
        "4"
    } else if d == 5 {
        proof { reveal_strlit("5"); }
        "5"
    } else if d == 6 {
        proof { reveal_strlit("6"); }
        "6"
    } else if d == 7 {
        proof { reveal_strlit("7"); }
        "7"
    } else if d == 8 {
        proof { reveal_strlit("8"); }
        "8"
    } else {
        proof { reveal_strlit("9"); }
        "9"
    }
}

fn push_decimal(s: &mut String, n: u128)
    ensures
        final(s)@ == old(s)@ + decimal(n as nat),
    decreases n,
{
    if n >= 10 {
        push_decimal(s, n / 10);
    }
    s.append(digit_text(n % 10));
}

impl Ratio {
    /// `num/denom`, both in decimal.
    pub fn as_ratio(&self) -> (r: String)
        ensures
            r@ == decimal(self.num as nat) + seq!['/'] + decimal(self.denom as nat),
    {
        let mut text = String::new();
        push_decimal(&mut text, self.num as u128);
        proof { reveal_strlit("/"); }
        text.append("/");
        push_decimal(&mut text, self.denom as u128);
        text
    }

    /// The ratio as a percentage with one decimal place, as in `50.0%`.
    pub fn as_percent(&self) -> (r: String)
        ensures
            r@ == percent_text(self.num as nat, self.denom as nat),
    {
        if self.denom == 0 {
            if self.num == 0 {
                proof { reveal_strlit("NaN%"); }
                return String::from_str("NaN%");
            } else {
                proof { reveal_strlit("inf%"); }
                return String::from_str("inf%");
            }
        }
        let scaled: u128 = 1000 * (self.num as u128);
        let denom: u128 = self.denom as u128;
        let q: u128 = scaled / denom;
        let rem: u128 = scaled % denom;
        let tenths: u128 = if 2 * rem > denom || (2 * rem == denom && q % 2 == 1) { q + 1 } else { q };
        assert(tenths == percent_tenths(self.num as nat, self.denom as nat));
        let mut text = String::new();
        push_decimal(&mut text, tenths / 10);
        proof { reveal_strlit("."); reveal_strlit("%"); }
        text.append(".");
        text.append(digit_text(tenths % 10));
        text.append("%");
        assert(text@ =~= percent_text(self.num as nat, self.denom as nat));
        text
    }
}

} // verus!
