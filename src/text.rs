//! Decimal numbers and fixed text pieces, read and written one character at a time.
use vstd::prelude::*;

verus! {

/// Lower-case hexadecimal digits; the first ten are the decimal digits.
pub open spec fn digits() -> Seq<char> {
    seq!['0', '1', '2', '3', '4', '5', '6', '7', '8', '9', 'a', 'b', 'c', 'd', 'e', 'f']
}

pub open spec fn is_dec_digit(c: char) -> bool {
    '0' <= c && c <= '9'
}

pub open spec fn dec_digit_value(c: char) -> nat {
    (c as u32 - '0' as u32) as nat
}

/// The shortest decimal text of `n` (no leading zeros, "0" for zero).
pub open spec fn dec(n: nat) -> Seq<char>
    decreases n,
{
    if n < 10 {
        seq![digits()[n as int]]
    } else {
        dec(n / 10).push(digits()[(n % 10) as int])
    }
}

/// The value of a sequence of decimal digits, most significant first.
pub open spec fn dec_value(s: Seq<char>) -> nat
    decreases s.len(),
{
    if s.len() == 0 {
        0
    } else {
        dec_value(s.drop_last()) * 10 + dec_digit_value(s.last())
    }
}

pub open spec fn all_dec_digits(s: Seq<char>) -> bool {
    forall|i: int| 0 <= i < s.len() ==> is_dec_digit(#[trigger] s[i])
}

proof fn lemma_digit(k: int)
    requires
        0 <= k < 10,
    ensures
        is_dec_digit(digits()[k]),
        dec_digit_value(digits()[k]) == k,
{
    if k == 0 { assert(digits()[k] == '0'); }
    else if k == 1 { assert(digits()[k] == '1'); }
    else if k == 2 { assert(digits()[k] == '2'); }
    else if k == 3 { assert(digits()[k] == '3'); }
    else if k == 4 { assert(digits()[k] == '4'); }
    else if k == 5 { assert(digits()[k] == '5'); }
    else if k == 6 { assert(digits()[k] == '6'); }
    else if k == 7 { assert(digits()[k] == '7'); }
    else if k == 8 { assert(digits()[k] == '8'); }
    else { assert(digits()[k] == '9'); }
}

/// Reading the decimal text of `n` gives `n` back.
pub proof fn lemma_dec_value(n: nat)
    ensures
        dec(n).len() > 0,
        all_dec_digits(dec(n)),
        dec_value(dec(n)) == n,
    decreases n,
{
    lemma_digit((n % 10) as int);
    if n >= 10 {
        lemma_dec_value(n / 10);
        let s = dec(n);
        assert(s.drop_last() =~= dec(n / 10));
        assert(n == (n / 10) * 10 + n % 10);
        assert(s.last() == digits()[(n % 10) as int]);
        assert(dec_value(s) == dec_value(s.drop_last()) * 10 + dec_digit_value(s.last()));
        assert forall|i: int| 0 <= i < s.len() implies is_dec_digit(#[trigger] s[i]) by {
            if i < s.len() - 1 {
                assert(s[i] == dec(n / 10)[i]);
            }
        }
    } else {
        let s = dec(n);
        assert(s.drop_last() =~= Seq::<char>::empty());
        assert(n % 10 == n);
        assert(dec_value(s.drop_last()) == 0);
        assert(dec_value(s) == dec_value(s.drop_last()) * 10 + dec_digit_value(s.last()));
    }
}

/// The text of one decimal digit.
fn digit_text(d: u64) -> (r: &'static str)
    requires
        d < 10,
    ensures
        r@ == seq![digits()[d as int]],
{
    proof {
        reveal_strlit("0");
        reveal_strlit("1");
        reveal_strlit("2");
        reveal_strlit("3");
        reveal_strlit("4");
        reveal_strlit("5");
        reveal_strlit("6");
        reveal_strlit("7");
        reveal_strlit("8");
        reveal_strlit("9");
    }
    let r = if d == 0 {
        "0"
    } else if d == 1 {
        "1"
    } else if d == 2 {
        "2"
    } else if d == 3 {
        "3"
    } else if d == 4 {
        "4"
    } else if d == 5 {
        "5"
    } else if d == 6 {
        "6"
    } else if d == 7 {
        "7"
    } else if d == 8 {
        "8"
    } else {
        "9"
    };
    assert(r@ =~= seq![digits()[d as int]]);
    r
}

/// Appends the decimal text of `n` to `out`.
pub fn push_decimal(out: &mut String, n: u64)
    ensures
        final(out)@ == old(out)@ + dec(n as nat),
    decreases n,
{
    if n < 10 {
        out.append(digit_text(n));
    } else {
        push_decimal(out, n / 10);
        out.append(digit_text(n % 10));
        assert(dec(n as nat) == dec((n / 10) as nat).push(digits()[(n % 10) as int]));
        assert(final(out)@ =~= old(out)@ + dec(n as nat));
    }
}

/// Whether `s` holds the text `lit` from position `at` on.
pub fn holds_at(s: &str, at: usize, lit: &str) -> (r: bool)
    requires
        at + lit@.len() <= s@.len(),
    ensures
        r == (s@.subrange(at as int, at + lit@.len()) == lit@),
{
    let n = lit.unicode_len();
    let l = s.unicode_len();
    let mut i: usize = 0;
    while i < n
        invariant
            n == lit@.len(),
            l == s@.len(),
            at + n <= s@.len(),
            i <= n,
            forall|k: int| 0 <= k < i ==> s@[at + k] == lit@[k],
        decreases n - i,
    {
        if s.get_char(at + i) != lit.get_char(i) {
            assert(s@.subrange(at as int, at + lit@.len())[i as int] != lit@[i as int]);
            return false;
        }
        i = i + 1;
    }
    assert(s@.subrange(at as int, at + lit@.len()) =~= lit@);
    true
}

/// Reads the decimal number that `s` holds between `from` and `to`, given in
/// its shortest form; `None` when that text is anything else or the number
/// does not fit in a `u64`.
pub fn read_decimal(s: &str, from: usize, to: usize) -> (r: Option<u64>)
    requires
        from <= to <= s@.len(),
    ensures
        r matches Some(v) ==> dec(v as nat) == s@.subrange(from as int, to as int),
        forall|v: u64| dec(v as nat) == s@.subrange(from as int, to as int) ==> r == Some(v),
{
    let ghost t = s@.subrange(from as int, to as int);
    if from == to {
        proof {
            assert forall|v: u64| dec(v as nat) != t by {
                lemma_dec_value(v as nat);
            }
        }
        return None;
    }
    let mut acc: u64 = 0;
    let mut i: usize = from;
    while i < to
        invariant
            from <= i <= to <= s@.len(),
            t == s@.subrange(from as int, to as int),
            all_dec_digits(s@.subrange(from as int, i as int)),
            acc as nat == dec_value(s@.subrange(from as int, i as int)),
        decreases to - i,
    {
        let c = s.get_char(i);
        let ghost pre = s@.subrange(from as int, i as int);
        let ghost next = s@.subrange(from as int, i + 1);
        assert(next.drop_last() =~= pre);
        if c < '0' || c > '9' {
            proof {
                assert forall|v: u64| dec(v as nat) != t by {
                    lemma_dec_value(v as nat);
                    if dec(v as nat) == t {
                        assert(t[i - from] == c);
                    }
                }
            }
            return None;
        }
        let d: u64 = (c as u32 - '0' as u32) as u64;
        let m = acc.checked_mul(10);
        if m.is_none() {
            proof { lemma_too_large(s@, from as int, i as int, to as int); }
            return None;
        }
        let a = m.unwrap().checked_add(d);
        if a.is_none() {
            proof { lemma_too_large(s@, from as int, i as int, to as int); }
            return None;
        }
        acc = a.unwrap();
        i = i + 1;
        assert(all_dec_digits(next));
    }
    assert(s@.subrange(from as int, to as int) =~= t);
    let mut back = String::new();
    push_decimal(&mut back, acc);
    assert(back@ =~= dec(acc as nat));
    if back.unicode_len() == to - from && holds_at(s, from, back.as_str()) {
        proof {
            assert forall|v: u64| dec(v as nat) == t implies v == acc by {
                lemma_dec_value(v as nat);
            }
        }
        Some(acc)
    } else {
        proof {
            assert forall|v: u64| dec(v as nat) != t by {
                lemma_dec_value(v as nat);
                if dec(v as nat) == t {
                    assert(v == acc);
                }
            }
        }
        None
    }
}

/// A digit text whose prefix already reads more than `u64::MAX` is no
/// shortest text of a `u64`.
proof fn lemma_too_large(s: Seq<char>, from: int, i: int, to: int)
    requires
        0 <= from <= i < to <= s.len(),
        all_dec_digits(s.subrange(from, i + 1)),
        dec_value(s.subrange(from, i + 1)) > u64::MAX,
    ensures
        forall|v: u64| dec(v as nat) != s.subrange(from, to),
{
    assert forall|v: u64| dec(v as nat) != s.subrange(from, to) by {
        if dec(v as nat) == s.subrange(from, to) {
            lemma_dec_value(v as nat);
            lemma_prefix_value(s.subrange(from, to), i + 1 - from);
            assert(s.subrange(from, to).subrange(0, i + 1 - from) =~= s.subrange(from, i + 1));
        }
    }
}

/// A prefix of a digit text reads no more than the whole text.
proof fn lemma_prefix_value(s: Seq<char>, k: int)
    requires
        0 <= k <= s.len(),
        all_dec_digits(s),
    ensures
        dec_value(s.subrange(0, k)) <= dec_value(s),
    decreases s.len() - k,
{
    if k < s.len() {
        lemma_prefix_value(s, k + 1);
        assert(s.subrange(0, k + 1).drop_last() =~= s.subrange(0, k));
    } else {
        assert(s.subrange(0, k) =~= s);
    }
}

} // verus!
