use vstd::prelude::*;

verus! {

/// The character of a decimal digit.
pub open spec fn digit_char(d: nat) -> char {
    if d == 0 { '0' } else if d == 1 { '1' } else if d == 2 { '2' } else if d == 3 { '3' }
    else if d == 4 { '4' } else if d == 5 { '5' } else if d == 6 { '6' } else if d == 7 { '7' }
    else if d == 8 { '8' } else { '9' }
}

/// The decimal rendering of a natural number, most significant digit first.
pub open spec fn decimal(n: nat) -> Seq<char>
    decreases n,
{
    if n < 10 {
        seq![digit_char(n)]
    } else {
        decimal(n / 10).push(digit_char(n % 10))
    }
}

/// `n` rendered in decimal and padded on the left with zeros to at least `width` characters.
pub open spec fn zero_padded(n: nat, width: nat) -> Seq<char> {
    let d = decimal(n);
    if d.len() >= width {
        d
    } else {
        Seq::new((width - d.len()) as nat, |i: int| '0') + d
    }
}

/// Lexicographic order of character sequences by code point (the order of Rust's `String`).
pub open spec fn seq_lt(a: Seq<char>, b: Seq<char>) -> bool
    decreases a.len(),
{
    if a.len() == 0 {
        b.len() > 0
    } else if b.len() == 0 {
        false
    } else if (a[0] as int) < (b[0] as int) {
        true
    } else if a[0] == b[0] {
        seq_lt(a.drop_first(), b.drop_first())
    } else {
        false
    }
}

pub proof fn lemma_seq_lt_irreflexive(a: Seq<char>)
    ensures
        !seq_lt(a, a),
    decreases a.len(),
{
    if a.len() > 0 {
        lemma_seq_lt_irreflexive(a.drop_first());
    }
}

pub proof fn lemma_seq_lt_transitive(a: Seq<char>, b: Seq<char>, c: Seq<char>)
    requires
        seq_lt(a, b),
        seq_lt(b, c),
    ensures
        seq_lt(a, c),
    decreases a.len(),
{
    if a.len() > 0 && b.len() > 0 && c.len() > 0 {
        if a[0] == b[0] && b[0] == c[0] {
            lemma_seq_lt_transitive(a.drop_first(), b.drop_first(), c.drop_first());
        }
    }
}

pub proof fn lemma_seq_lt_total(a: Seq<char>, b: Seq<char>)
    ensures
        a == b || seq_lt(a, b) || seq_lt(b, a),
    decreases a.len(),
{
    if a.len() > 0 && b.len() > 0 {
        if a[0] == b[0] {
            lemma_seq_lt_total(a.drop_first(), b.drop_first());
            if a.drop_first() == b.drop_first() {
                assert(a == seq![a[0]] + a.drop_first());
                assert(b == seq![b[0]] + b.drop_first());
            }
        } else {
            assert((a[0] as int) != (b[0] as int));
        }
    } else if a.len() == 0 && b.len() == 0 {
        assert(a == b);
    }
}

pub proof fn lemma_seq_lt_asymmetric(a: Seq<char>, b: Seq<char>)
    requires
        seq_lt(a, b),
    ensures
        !seq_lt(b, a),
        a != b,
{
    lemma_seq_lt_irreflexive(a);
    if seq_lt(b, a) {
        lemma_seq_lt_transitive(a, b, a);
    }
}

/// Compares two strings in the order of Rust's `String`: -1, 0 or 1.
pub fn compare_str(a: &str, b: &str) -> (r: i8)
    ensures
        r == -1 <==> seq_lt(a@, b@),
        r == 0 <==> a@ == b@,
        r == 1 <==> seq_lt(b@, a@),
        -1 <= r <= 1,
{
    let la = a.unicode_len();
    let lb = b.unicode_len();
    let mut i: usize = 0;
    while i < la && i < lb
        invariant
            la == a@.len(),
            lb == b@.len(),
            i <= la,
            i <= lb,
            a@.subrange(0, i as int) == b@.subrange(0, i as int),
        decreases la - i,
    {
        let ca = a.get_char(i);
        let cb = b.get_char(i);
        if (ca as u32) < (cb as u32) {
            proof { lemma_prefix_decides(a@, b@, i as int); lemma_seq_lt_asymmetric(a@, b@); }
            return -1;
        } else if ca != cb {
            proof { lemma_prefix_decides(b@, a@, i as int); lemma_seq_lt_asymmetric(b@, a@); }
            return 1;
        }
        proof {
            assert(a@.subrange(0, i + 1) == a@.subrange(0, i as int).push(ca));
            assert(b@.subrange(0, i + 1) == b@.subrange(0, i as int).push(cb));
        }
        i = i + 1;
    }
    proof { lemma_prefix_end(a@, b@, i as int); }
    if la < lb {
        proof { lemma_seq_lt_asymmetric(a@, b@); }
        -1
    } else if lb < la {
        proof { lemma_seq_lt_asymmetric(b@, a@); }
        1
    } else {
        proof {
            assert(a@ == a@.subrange(0, la as int));
            assert(b@ == b@.subrange(0, lb as int));
            lemma_seq_lt_irreflexive(a@);
        }
        0
    }
}

proof fn lemma_prefix_decides(a: Seq<char>, b: Seq<char>, i: int)
    requires
        0 <= i < a.len(),
        i < b.len(),
        a.subrange(0, i) == b.subrange(0, i),
        (a[i] as int) < (b[i] as int),
    ensures
        seq_lt(a, b),
    decreases i,
{
    if i > 0 {
        assert(a[0] == a.subrange(0, i)[0]);
        assert(b[0] == b.subrange(0, i)[0]);
        assert(a.drop_first().subrange(0, i - 1) == a.subrange(0, i).drop_first());
        assert(b.drop_first().subrange(0, i - 1) == b.subrange(0, i).drop_first());
        lemma_prefix_decides(a.drop_first(), b.drop_first(), i - 1);
    }
}

proof fn lemma_prefix_end(a: Seq<char>, b: Seq<char>, i: int)
    requires
        0 <= i <= a.len(),
        i <= b.len(),
        i == a.len() || i == b.len(),
        a.subrange(0, i) == b.subrange(0, i),
    ensures
        a.len() < b.len() ==> seq_lt(a, b),
        b.len() < a.len() ==> seq_lt(b, a),
    decreases i,
{
    if i > 0 {
        assert(a[0] == a.subrange(0, i)[0]);
        assert(b[0] == b.subrange(0, i)[0]);
        assert(a.drop_first().subrange(0, i - 1) == a.subrange(0, i).drop_first());
        assert(b.drop_first().subrange(0, i - 1) == b.subrange(0, i).drop_first());
        lemma_prefix_end(a.drop_first(), b.drop_first(), i - 1);
    }
}

/// Appends `s` to `out`.
pub fn push_str(out: &mut String, s: &str)
    ensures
        final(out)@ == old(out)@ + s@,
{
    out.append(s);
}

fn digit_str(d: u128) -> (r: &'static str)
    requires
        d < 10,
    ensures
        r@ == seq![digit_char(d as nat)],
{
    proof {
        reveal_strlit("0"); reveal_strlit("1"); reveal_strlit("2"); reveal_strlit("3");
        reveal_strlit("4"); reveal_strlit("5"); reveal_strlit("6"); reveal_strlit("7");
        reveal_strlit("8"); reveal_strlit("9");
    }
    if d == 0 { "0" } else if d == 1 { "1" } else if d == 2 { "2" } else if d == 3 { "3" }
    else if d == 4 { "4" } else if d == 5 { "5" } else if d == 6 { "6" } else if d == 7 { "7" }
    else if d == 8 { "8" } else { "9" }
}

/// Appends the decimal rendering of `n` to `out`.
pub fn push_decimal(out: &mut String, n: u128)
    ensures
        final(out)@ == old(out)@ + decimal(n as nat),
    decreases n,
{
    if n >= 10 {
        push_decimal(out, n / 10);
        let d = digit_str(n % 10);
        out.append(d);
        proof {
            assert(decimal(n as nat) == decimal((n / 10) as nat).push(digit_char((n % 10) as nat)));
            assert(old(out)@ + decimal((n / 10) as nat) + seq![digit_char((n % 10) as nat)]
                == old(out)@ + decimal(n as nat));
        }
    } else {
        let d = digit_str(n);
        out.append(d);
    }
}

/// The decimal rendering of `n` as a new string.
pub fn decimal_string(n: u128) -> (r: String)
    ensures
        r@ == decimal(n as nat),
{
    let mut out = String::new();
    push_decimal(&mut out, n);
    proof { assert(Seq::<char>::empty() + decimal(n as nat) == decimal(n as nat)); }
    out
}

pub proof fn lemma_decimal_len(n: nat)
    ensures
        decimal(n).len() >= 1,
    decreases n,
{
    if n >= 10 {
        lemma_decimal_len(n / 10);
    }
}

/// Appends `n` in decimal, padded on the left with zeros to `width` characters.
pub fn push_zero_padded(out: &mut String, n: u128, width: usize)
    ensures
        final(out)@ == old(out)@ + zero_padded(n as nat, width as nat),
{
    let digits = decimal_string(n);
    let len = digits.as_str().unicode_len();
    proof { lemma_decimal_len(n as nat); }
    let mut k: usize = len;
    let ghost start = out@;
    while k < width
        invariant
            len == decimal(n as nat).len(),
            len <= k,
            k <= width || len >= width,
            len >= width ==> k == len,
            out@ == start + Seq::new((k - len) as nat, |i: int| '0'),
        decreases width - k,
    {
        proof { reveal_strlit("0"); }
        out.append("0");
        proof {
            assert(Seq::new((k - len) as nat, |i: int| '0') + "0"@
                == Seq::new((k + 1 - len) as nat, |i: int| '0'));
        }
        k = k + 1;
    }
    out.append(digits.as_str());
    proof {
        if len >= width {
            assert(Seq::new((k - len) as nat, |i: int| '0') =~= Seq::<char>::empty());
            assert(start + Seq::<char>::empty() + decimal(n as nat) == start + decimal(n as nat));
        } else {
            assert(k == width);
            assert(start + Seq::new((k - len) as nat, |i: int| '0') + decimal(n as nat)
                == start + (Seq::new((k - len) as nat, |i: int| '0') + decimal(n as nat)));
        }
    }
}

/// The order of pairs of strings: by the first, then by the second.
pub open spec fn pair_lt(a: (Seq<char>, Seq<char>), b: (Seq<char>, Seq<char>)) -> bool {
    seq_lt(a.0, b.0) || (a.0 == b.0 && seq_lt(a.1, b.1))
}

pub proof fn lemma_pair_lt_order(a: (Seq<char>, Seq<char>), b: (Seq<char>, Seq<char>), c: (Seq<char>, Seq<char>))
    ensures
        !pair_lt(a, a),
        a == b || pair_lt(a, b) || pair_lt(b, a),
        pair_lt(a, b) ==> !pair_lt(b, a) && a != b,
        pair_lt(a, b) && pair_lt(b, c) ==> pair_lt(a, c),
{
    lemma_seq_lt_irreflexive(a.0);
    lemma_seq_lt_irreflexive(a.1);
    lemma_seq_lt_total(a.0, b.0);
    lemma_seq_lt_total(a.1, b.1);
    if seq_lt(a.0, b.0) { lemma_seq_lt_asymmetric(a.0, b.0); }
    if seq_lt(b.0, a.0) { lemma_seq_lt_asymmetric(b.0, a.0); }
    if seq_lt(a.1, b.1) { lemma_seq_lt_asymmetric(a.1, b.1); }
    if seq_lt(b.1, a.1) { lemma_seq_lt_asymmetric(b.1, a.1); }
    if pair_lt(a, b) && pair_lt(b, c) {
        if seq_lt(a.0, b.0) && seq_lt(b.0, c.0) { lemma_seq_lt_transitive(a.0, b.0, c.0); }
        if a.0 == b.0 && seq_lt(a.1, b.1) && b.0 == c.0 && seq_lt(b.1, c.1) { lemma_seq_lt_transitive(a.1, b.1, c.1); }
    }
}

/// Compares two pairs of strings: -1, 0 or 1.
pub fn compare_pair(a0: &str, a1: &str, b0: &str, b1: &str) -> (r: i8)
    ensures
        r == -1 <==> pair_lt((a0@, a1@), (b0@, b1@)),
        r == 0 <==> (a0@, a1@) == (b0@, b1@),
        r == 1 <==> pair_lt((b0@, b1@), (a0@, a1@)),
        -1 <= r <= 1,
{
    proof { lemma_pair_lt_order((a0@, a1@), (b0@, b1@), (b0@, b1@)); }
    let c = compare_str(a0, b0);
    if c != 0 {
        c
    } else {
        compare_str(a1, b1)
    }
}

/// The decimal rendering of an integer, with a leading minus sign when it is negative.
pub open spec fn signed_decimal(x: int) -> Seq<char> {
    if x < 0 { "-"@ + decimal((-x) as nat) } else { decimal(x as nat) }
}

/// Appends the decimal rendering of `x`, signed, to `out`.
pub fn push_signed(out: &mut String, x: i128)
    ensures
        final(out)@ == old(out)@ + signed_decimal(x as int),
{
    if x < 0 {
        push_str(out, "-");
        let magnitude: u128 = if x == i128::MIN { 0x8000_0000_0000_0000_0000_0000_0000_0000u128 } else { (-x) as u128 };
        push_decimal(out, magnitude);
        proof { assert(old(out)@ + "-"@ + decimal((-x) as nat) == old(out)@ + ("-"@ + decimal((-x) as nat))); }
    } else {
        push_decimal(out, x as u128);
    }
}

} // verus!
