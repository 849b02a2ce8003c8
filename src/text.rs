//! Small textual building blocks: digit rendering and string lookups.
use vstd::prelude::*;

verus! {

/// The character that renders digit `d` (lower-case for digits above nine).
pub open spec fn digit_char(d: nat) -> char {
    seq!['0', '1', '2', '3', '4', '5', '6', '7', '8', '9', 'a', 'b', 'c', 'd', 'e', 'f'][d as int]
}

/// `n` in hexadecimal, without leading zeros (zero is written as one digit).
pub open spec fn hex_digits(n: nat) -> Seq<char>
    decreases n,
{
    if n < 16 {
        seq![digit_char(n)]
    } else {
        hex_digits(n / 16).push(digit_char(n % 16))
    }
}

/// `n` in decimal, without leading zeros (zero is written as one digit).
pub open spec fn dec_digits(n: nat) -> Seq<char>
    decreases n,
{
    if n < 10 {
        seq![digit_char(n)]
    } else {
        dec_digits(n / 10).push(digit_char(n % 10))
    }
}

/// `n` written in base `base`, which is ten or sixteen.
pub open spec fn radix_digits(n: nat, base: nat) -> Seq<char> {
    if base == 16 {
        hex_digits(n)
    } else {
        dec_digits(n)
    }
}

/// The lowest `width` digits of `n` in base `base`, zero-padded on the left.
pub open spec fn padded_digits(n: nat, base: nat, width: nat) -> Seq<char>
    decreases width,
{
    if width == 0 {
        Seq::empty()
    } else {
        padded_digits(n / base, base, (width - 1) as nat).push(digit_char(n % base))
    }
}

/// The spec-level text of a string, for callers that hold a sequence of strings.
pub open spec fn texts(v: Seq<String>) -> Seq<Seq<char>> {
    v.map_values(|s: String| s@)
}

fn digit_text(d: u128) -> (r: &'static str)
    requires
        d < 16,
    ensures
        r@ == seq![digit_char(d as nat)],
{
    proof {
        reveal_strlit("0");
        reveal_strlit("1");
        reveal_strlit("2");
        reveal_strlit("3");
        reveal_strlit("4");
        reveal_strlit("5");
        reveal_strlit("6");
        reveal_strlit("7");
        reveal_strlit("8");
        reveal_strlit("9");
        reveal_strlit("a");
        reveal_strlit("b");
        reveal_strlit("c");
        reveal_strlit("d");
        reveal_strlit("e");
        reveal_strlit("f");
    }
    if d == 0 {
        "0"
    } else if d == 1 {
        "1"
    } else if d == 2 {
        "2"
    } else if d == 3 {
        "3"
    } else if d == 4 {
        "4"
    } else if d == 5 {
        "5"
    } else if d == 6 {
        "6"
    } else if d == 7 {
        "7"
    } else if d == 8 {
        "8"
    } else if d == 9 {
        "9"
    } else if d == 10 {
        "a"
    } else if d == 11 {
        "b"
    } else if d == 12 {
        "c"
    } else if d == 13 {
        "d"
    } else if d == 14 {
        "e"
    } else {
        "f"
    }
}

proof fn lemma_div_step(n: nat, base: nat)
    requires
        2 <= base,
    ensures
        n < base ==> n % base == n && n / base == 0,
        n >= base ==> n / base > 0 && n / base < n,
        n % base < base,
{
    assert(n < base ==> n % base == n && n / base == 0) by (nonlinear_arith)
        requires
            2 <= base,
    ;
    assert(n >= base ==> n / base > 0 && n / base < n) by (nonlinear_arith)
        requires
            2 <= base,
    ;
    assert(n % base < base) by (nonlinear_arith)
        requires
            2 <= base,
    ;
}

/// Renders `n` in base `base` without leading zeros.
pub fn radix_text(n: u128, base: u128) -> (r: String)
    requires
        base == 10 || base == 16,
    ensures
        r@ == radix_digits(n as nat, base as nat),
{
    proof {
        lemma_div_step(n as nat, base as nat);
    }
    let mut out = String::from_str(digit_text(n % base));
    let mut m: u128 = n / base;
    while m > 0
        invariant
            base == 10 || base == 16,
            radix_digits(n as nat, base as nat) == (if m == 0 {
                Seq::<char>::empty()
            } else {
                radix_digits(m as nat, base as nat)
            }) + out@,
        decreases m,
    {
        proof {
            lemma_div_step(m as nat, base as nat);
            let tail = if m / base == 0 {
                Seq::<char>::empty()
            } else {
                radix_digits((m / base) as nat, base as nat)
            };
            assert(radix_digits(m as nat, base as nat) =~= tail + seq![digit_char((m % base) as nat)]);
        }
        let head = String::from_str(digit_text(m % base));
        out = head.concat(out.as_str());
        m = m / base;
        proof {
            assert(radix_digits(n as nat, base as nat) =~= (if m == 0 {
                Seq::<char>::empty()
            } else {
                radix_digits(m as nat, base as nat)
            }) + out@);
        }
    }
    proof {
        assert(radix_digits(n as nat, base as nat) =~= out@);
    }
    out
}

/// Renders the lowest `width` digits of `n` in base `base`, zero-padded.
pub fn padded_radix_text(n: u128, base: u128, width: usize) -> (r: String)
    requires
        2 <= base <= 16,
    ensures
        r@ == padded_digits(n as nat, base as nat, width as nat),
{
    let mut out = String::new();
    let mut m: u128 = n;
    let mut i: usize = 0;
    while i < width
        invariant
            2 <= base <= 16,
            i <= width,
            padded_digits(n as nat, base as nat, width as nat) == padded_digits(
                m as nat,
                base as nat,
                (width - i) as nat,
            ) + out@,
        decreases width - i,
    {
        proof {
            lemma_div_step(m as nat, base as nat);
        }
        let head = String::from_str(digit_text(m % base));
        let ghost rest = padded_digits((m / base) as nat, base as nat, (width - i - 1) as nat);
        assert(padded_digits(m as nat, base as nat, (width - i) as nat) == rest.push(
            digit_char((m % base) as nat),
        ));
        out = head.concat(out.as_str());
        m = m / base;
        i = i + 1;
        assert(padded_digits(n as nat, base as nat, width as nat) =~= padded_digits(
            m as nat,
            base as nat,
            (width - i) as nat,
        ) + out@);
    }
    assert(padded_digits(n as nat, base as nat, width as nat) =~= out@);
    out
}

} // verus!
