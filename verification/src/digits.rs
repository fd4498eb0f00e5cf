use vstd::prelude::*;

verus! {

/// 2 raised to the given power.
pub open spec fn pow2(e: nat) -> nat
    decreases e,
{
    if e == 0 {
        1
    } else {
        2 * pow2((e - 1) as nat)
    }
}

/// 5 raised to the given power.
pub open spec fn pow5(e: nat) -> nat
    decreases e,
{
    if e == 0 {
        1
    } else {
        5 * pow5((e - 1) as nat)
    }
}

/// 10 raised to the given power.
pub open spec fn pow10(e: nat) -> nat
    decreases e,
{
    if e == 0 {
        1
    } else {
        10 * pow10((e - 1) as nat)
    }
}

pub broadcast proof fn lemma_pow2_pos(e: nat)
    ensures
        #[trigger] pow2(e) >= 1,
    decreases e,
{
    if e > 0 {
        lemma_pow2_pos((e - 1) as nat);
    }
}

pub broadcast proof fn lemma_pow10_pos(e: nat)
    ensures
        #[trigger] pow10(e) >= 1,
    decreases e,
{
    if e > 0 {
        lemma_pow10_pos((e - 1) as nat);
    }
}

pub broadcast proof fn lemma_pow5_pos(e: nat)
    ensures
        #[trigger] pow5(e) >= 1,
    decreases e,
{
    if e > 0 {
        lemma_pow5_pos((e - 1) as nat);
    }
}

/// 10^e factors as 2^e * 5^e.
pub proof fn lemma_pow10_split(e: nat)
    ensures
        pow10(e) as int == pow2(e) as int * pow5(e) as int,
    decreases e,
{
    if e > 0 {
        let p = (e - 1) as nat;
        lemma_pow10_split(p);
        assert(pow2(e) as int * pow5(e) as int == pow10(e) as int) by (nonlinear_arith)
            requires
                pow2(e) == 2 * pow2(p),
                pow5(e) == 5 * pow5(p),
                pow10(e) == 10 * pow10(p),
                pow10(p) as int == pow2(p) as int * pow5(p) as int,
        ;
    } else {
        assert(e == 0);
        assert(pow10(e) == 1);
        assert(pow2(e) == 1);
        assert(pow5(e) == 1);
        assert(pow10(e) as int == pow2(e) as int * pow5(e) as int);
    }
}

/// The character of a single decimal digit.
pub open spec fn digit_char(d: nat) -> char {
    if d == 0 {
        '0'
    } else if d == 1 {
        '1'
    } else if d == 2 {
        '2'
    } else if d == 3 {
        '3'
    } else if d == 4 {
        '4'
    } else if d == 5 {
        '5'
    } else if d == 6 {
        '6'
    } else if d == 7 {
        '7'
    } else if d == 8 {
        '8'
    } else {
        '9'
    }
}

/// The decimal digits of a natural number, most significant first,
/// with no leading zeroes; zero has no digits at all.
pub open spec fn dec_digits(n: nat) -> Seq<char>
    decreases n,
{
    if n == 0 {
        Seq::empty()
    } else {
        dec_digits(n / 10).push(digit_char(n % 10))
    }
}

/// The decimal text of a natural number: its digits, or "0" for zero.
pub open spec fn nat_text(n: nat) -> Seq<char> {
    if n == 0 {
        seq!['0']
    } else {
        dec_digits(n)
    }
}

/// The decimal text of a signed number.
pub open spec fn int_text(v: int) -> Seq<char> {
    if v < 0 {
        seq!['-'] + nat_text((-v) as nat)
    } else {
        nat_text(v as nat)
    }
}

/// The value of a little-endian vector of decimal digits.
pub open spec fn dval(s: Seq<u8>) -> nat
    decreases s.len(),
{
    if s.len() == 0 {
        0
    } else {
        (s[0] + 10 * dval(s.subrange(1, s.len() as int))) as nat
    }
}

/// All entries of a digit vector are decimal digits.
pub open spec fn digits_ok(s: Seq<u8>) -> bool {
    forall|i: int| 0 <= i < s.len() ==> s[i] < 10
}

/// A digit vector is canonical when it carries no leading zero,
/// that is, no zero in its most significant (last) position.
pub open spec fn canonical(s: Seq<u8>) -> bool {
    s.len() == 0 || s.last() != 0
}

/// Appending a most significant digit adds its value at the next power of ten.
pub proof fn lemma_dval_push(s: Seq<u8>, d: u8)
    ensures
        dval(s.push(d)) == dval(s) + d * pow10(s.len()),
    decreases s.len(),
{
    if s.len() == 0 {
        assert(s.push(d).subrange(1, 1) =~= Seq::<u8>::empty());
        assert(dval(s.push(d)) == d + 10 * dval(Seq::<u8>::empty()));
        assert(dval(s) == 0);
        assert(pow10(0) == 1);
    } else {
        let rest = s.subrange(1, s.len() as int);
        assert(s.push(d).subrange(1, s.len() as int + 1) =~= rest.push(d));
        lemma_dval_push(rest, d);
        assert(dval(rest.push(d)) == dval(rest) + d * pow10(rest.len()));
        assert(dval(s.push(d)) == s[0] + 10 * dval(rest.push(d)));
        assert(dval(s) == s[0] + 10 * dval(rest));
        assert(pow10(s.len()) == 10 * pow10(rest.len()));
        assert(10 * (d * pow10(rest.len())) == d * pow10(s.len())) by (nonlinear_arith)
            requires
                pow10(s.len()) == 10 * pow10(rest.len()),
        ;
    }
}

/// A canonical, non-empty digit vector has a positive value.
pub proof fn lemma_dval_pos(s: Seq<u8>)
    requires
        canonical(s),
        s.len() > 0,
    ensures
        dval(s) > 0,
    decreases s.len(),
{
    if s.len() > 1 {
        assert(s.subrange(1, s.len() as int).last() == s.last());
        lemma_dval_pos(s.subrange(1, s.len() as int));
    }
}

/// The digit characters of a little-endian digit vector, most significant first.
pub open spec fn rev_chars(s: Seq<u8>) -> Seq<char> {
    Seq::new(s.len(), |i: int| digit_char(s[s.len() - 1 - i] as nat))
}

/// A canonical digit vector renders exactly as the decimal digits of its value.
pub proof fn lemma_digits_render(s: Seq<u8>)
    requires
        digits_ok(s),
        canonical(s),
    ensures
        dec_digits(dval(s)) == rev_chars(s),
    decreases s.len(),
{
    if s.len() == 0 {
        assert(dec_digits(0) =~= rev_chars(s));
    } else {
        let rest = s.subrange(1, s.len() as int);
        lemma_dval_pos(s);
        let n = dval(s);
        assert(n == s[0] + 10 * dval(rest));
        assert(n % 10 == s[0] && n / 10 == dval(rest)) by {
            assert(s[0] < 10);
        };
        if s.len() > 1 {
            assert(rest.last() == s.last());
        }
        lemma_digits_render(rest);
        assert(dec_digits(n) =~= rev_chars(s)) by {
            assert(dec_digits(n) == dec_digits(dval(rest)).push(digit_char(s[0] as nat)));
            assert(rev_chars(rest).len() == s.len() - 1);
            assert forall|i: int| 0 <= i < s.len() implies rev_chars(s)[i] == dec_digits(n)[i] by {
                if i < s.len() - 1 {
                    assert(rev_chars(rest)[i] == digit_char(rest[s.len() - 2 - i] as nat));
                    assert(rest[s.len() - 2 - i] == s[s.len() - 1 - i]);
                }
            };
        };
    }
}

/// A number below the k-th power of ten has at most k decimal digits.
pub proof fn lemma_dec_digits_len(n: nat, k: nat)
    requires
        n < pow10(k),
    ensures
        dec_digits(n).len() <= k,
    decreases k,
{
    if n > 0 {
        lemma_dec_digits_len(n / 10, (k - 1) as nat);
    }
}

/// Appends the character of one decimal digit to a string.
pub fn push_digit_char(s: &mut String, d: u8)
    requires
        d < 10,
    ensures
        final(s)@ == old(s)@.push(digit_char(d as nat)),
{
    proof {
        reveal_strlit("0");
        reveal_strlit("1");
        reveal_strlit("2");
        reveal_strlit("3");
        reveal_strlit("4");
        reveal_strlit("5");
        reveal_strlit("6");
        reveal_strlit("7");
        reveal_strlit("8");
        reveal_strlit("9");
    }
    match d {
        0 => s.append("0"),
        1 => s.append("1"),
        2 => s.append("2"),
        3 => s.append("3"),
        4 => s.append("4"),
        5 => s.append("5"),
        6 => s.append("6"),
        7 => s.append("7"),
        8 => s.append("8"),
        _ => s.append("9"),
    }
    proof {
        assert(final(s)@ =~= old(s)@.push(digit_char(d as nat)));
    }
}

/// The little-endian decimal digits of a number.
pub fn digits_of_u64(n: u64) -> (r: Vec<u8>)
    ensures
        dval(r@) == n,
        digits_ok(r@),
        canonical(r@),
{
    let mut r: Vec<u8> = Vec::new();
    let mut m: u64 = n;
    proof {
        assert(pow10(0) == 1);
        assert(r@ =~= Seq::<u8>::empty());
        assert(dval(r@) == 0);
    }
    while m > 0
        invariant
            dval(r@) + m * pow10(r@.len()) == n,
            digits_ok(r@),
            m == 0 ==> canonical(r@),
            r@.len() > 0 ==> (r@.last() != 0 || m > 0),
        decreases m,
    {
        let d: u8 = (m % 10) as u8;
        let ghost prev = r@;
        proof {
            lemma_dval_push(r@, d);
            lemma_pow10_pos(r@.len() + 1);
            assert((m / 10) * (10 * pow10(prev.len())) == (10 * (m / 10)) * pow10(prev.len()))
                by (nonlinear_arith);
            assert(d + 10 * (m / 10) == m);
            assert(d * pow10(prev.len()) + (10 * (m / 10)) * pow10(prev.len()) == m * pow10(
                prev.len(),
            )) by (nonlinear_arith)
                requires
                    d + 10 * (m / 10) == m,
            ;
        }
        r.push(d);
        m = m / 10;
    }
    proof {
        lemma_pow10_pos(r@.len());
    }
    r
}

/// Multiplies a digit vector by a small factor.
pub fn times_small(v: &Vec<u8>, m: u8) -> (r: Vec<u8>)
    requires
        1 <= m <= 9,
        digits_ok(v@),
        canonical(v@),
    ensures
        dval(r@) == m * dval(v@),
        digits_ok(r@),
        canonical(r@),
{
    let mut r: Vec<u8> = Vec::new();
    let mut carry: u16 = 0;
    let mut i: usize = 0;
    proof {
        assert(pow10(0) == 1);
        assert(v@.subrange(0, 0) =~= Seq::<u8>::empty());
        assert(r@ =~= Seq::<u8>::empty());
        assert(dval(r@) == 0);
        assert(dval(v@.subrange(0, 0)) == 0);
    }
    while i < v.len()
        invariant
            i <= v@.len(),
            digits_ok(v@),
            canonical(v@),
            1 <= m <= 9,
            carry < 10,
            r@.len() == i,
            digits_ok(r@),
            dval(r@) + carry * pow10(i as nat) == m * dval(v@.subrange(0, i as int)),
        decreases v@.len() - i,
    {
        let d: u8 = v[i];
        proof {
            assert((d as u16) * (m as u16) <= 81) by (nonlinear_arith)
                requires
                    d < 10,
                    m <= 9,
            ;
        }
        let t: u16 = (d as u16) * (m as u16) + carry;
        let ghost prev = r@;
        let ghost pc = carry;
        proof {
            lemma_dval_push(r@, (t % 10) as u8);
            let sub = v@.subrange(0, i as int);
            assert(v@.subrange(0, i + 1) =~= sub.push(d));
            lemma_dval_push(sub, d);
            let p = pow10(i as nat);
            lemma_pow10_pos(i as nat);
            assert(t % 10 + 10 * (t / 10) == t);
            assert(dval(prev.push((t % 10) as u8)) + (t / 10) * (10 * p) == m * dval(
                sub.push(d),
            )) by (nonlinear_arith)
                requires
                    dval(prev.push((t % 10) as u8)) == dval(prev) + (t % 10) * p,
                    t % 10 + 10 * (t / 10) == t,
                    t == d * m + pc,
                    dval(prev) + pc * p == m * dval(sub),
                    dval(sub.push(d)) == dval(sub) + d * p,
            ;
        }
        r.push((t % 10) as u8);
        carry = t / 10;
        i = i + 1;
    }
    proof {
        assert(v@.subrange(0, v@.len() as int) =~= v@);
    }
    if carry > 0 {
        proof {
            lemma_dval_push(r@, carry as u8);
        }
        r.push(carry as u8);
    }
    // Trim a leading zero that a small product may leave behind.
    while r.len() > 0 && r[r.len() - 1] == 0
        invariant
            digits_ok(r@),
            dval(r@) == m * dval(v@),
        decreases r@.len(),
    {
        let ghost prev = r@;
        proof {
            assert(prev.subrange(0, prev.len() - 1).push(0u8) =~= prev);
            lemma_dval_push(prev.subrange(0, prev.len() - 1), 0);
        }
        let _ = r.pop();
        proof {
            assert(r@ =~= prev.subrange(0, prev.len() - 1));
        }
    }
    r
}

/// Renders a canonical digit vector as text, most significant digit first.
pub fn text_of_digits(v: &Vec<u8>) -> (r: String)
    requires
        digits_ok(v@),
        canonical(v@),
    ensures
        r@ == dec_digits(dval(v@)),
        r@.len() == v@.len(),
{
    let mut r = String::new();
    let mut i: usize = v.len();
    while i > 0
        invariant
            i <= v@.len(),
            digits_ok(v@),
            r@.len() == v@.len() - i,
            forall|j: int| 0 <= j < r@.len() ==> r@[j] == rev_chars(v@)[j],
        decreases i,
    {
        i = i - 1;
        push_digit_char(&mut r, v[i]);
    }
    proof {
        lemma_digits_render(v@);
        assert(r@ =~= rev_chars(v@));
    }
    r
}

/// Renders a natural number in decimal.
pub fn nat_text_u64(n: u64) -> (r: String)
    ensures
        r@ == nat_text(n as nat),
{
    if n == 0 {
        let mut r = String::new();
        push_digit_char(&mut r, 0);
        proof {
            assert(r@ =~= seq!['0']);
        }
        r
    } else {
        let v = digits_of_u64(n);
        proof {
            if v@.len() == 0 {
            }
        }
        text_of_digits(&v)
    }
}

/// Renders a signed number in decimal.
pub fn int_text_i32(v: i32) -> (r: String)
    ensures
        r@ == int_text(v as int),
{
    if v < 0 {
        proof {
            reveal_strlit("-");
        }
        let mut r = String::from_str("-");
        let m: u64 = if v == i32::MIN {
            2147483648u64
        } else {
            (-v) as u64
        };
        let tail = nat_text_u64(m);
        r.append(tail.as_str());
        proof {
            assert(r@ =~= seq!['-'] + nat_text(m as nat));
        }
        r
    } else {
        nat_text_u64(v as u64)
    }
}

} // verus!
