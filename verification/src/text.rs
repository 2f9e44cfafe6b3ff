use vstd::prelude::*;
use vstd::std_specs::iter::IteratorSpec;

verus! {

/// Appends one character to a string.
///
/// Trusted: calls `String::push`, which appends the character at the end of the
/// string; the contract states exactly that for the string's character view.
#[verifier::external_body]
pub(crate) fn string_push(s: &mut String, c: char)
    ensures
        final(s)@ == old(s)@.push(c),
{
    s.push(c);
}

/// Character-wise equality of two string slices.
pub fn str_eq(a: &str, b: &str) -> (r: bool)
    ensures
        r == (a@ == b@),
{
    let mut ia = a.chars();
    let mut ib = b.chars();
    let ghost mut k: int = 0;
    loop
        invariant
            0 <= k <= a@.len(),
            k <= b@.len(),
            ia.remaining() == a@.skip(k),
            ib.remaining() == b@.skip(k),
            a@.take(k) == b@.take(k),
        decreases a@.len() - k,
    {
        let x = ia.next();
        let y = ib.next();
        match (x, y) {
            (None, None) => {
                assert(a@ =~= a@.take(k));
                assert(b@ =~= b@.take(k));
                return true;
            },
            (Some(cx), Some(cy)) => {
                if cx != cy {
                    assert(a@[k] != b@[k]);
                    return false;
                }
                proof {
                    assert(a@.take(k + 1) =~= a@.take(k).push(cx));
                    assert(b@.take(k + 1) =~= b@.take(k).push(cy));
                    k = k + 1;
                }
            },
            (Some(_), None) => {
                assert(a@.len() != b@.len());
                return false;
            },
            (None, Some(_)) => {
                assert(a@.len() != b@.len());
                return false;
            },
        }
    }
}

} // verus!

verus! {

/// The digit characters used for bases up to 16, upper or lower case.
pub open spec fn digit_table(upper: bool) -> Seq<char> {
    if upper {
        seq!['0', '1', '2', '3', '4', '5', '6', '7', '8', '9', 'A', 'B', 'C', 'D', 'E', 'F']
    } else {
        seq!['0', '1', '2', '3', '4', '5', '6', '7', '8', '9', 'a', 'b', 'c', 'd', 'e', 'f']
    }
}

/// The shortest digit string of `n` in base `base` (2..=16), as `{}`/`{:x}`/`{:X}` print it.
pub open spec fn radix_digits(n: nat, base: nat, upper: bool) -> Seq<char>
    decreases n,
{
    if base < 2 || n < base {
        seq![digit_table(upper)[n as int]]
    } else {
        proof {
            assert(n / base < n) by (nonlinear_arith)
                requires
                    base >= 2,
                    n >= base,
            ;
        }
        radix_digits(n / base, base, upper).push(digit_table(upper)[(n % base) as int])
    }
}

/// `s` left-padded with `'0'` up to `width` characters.
pub open spec fn zero_pad(s: Seq<char>, width: nat) -> Seq<char> {
    if s.len() >= width {
        s
    } else {
        Seq::new((width - s.len()) as nat, |i: int| '0') + s
    }
}

fn digit_char(d: u64, upper: bool) -> (c: char)
    requires
        d < 16,
    ensures
        c == digit_table(upper)[d as int],
{
    let t: Vec<char> = if upper {
        vec!['0', '1', '2', '3', '4', '5', '6', '7', '8', '9', 'A', 'B', 'C', 'D', 'E', 'F']
    } else {
        vec!['0', '1', '2', '3', '4', '5', '6', '7', '8', '9', 'a', 'b', 'c', 'd', 'e', 'f']
    };
    assert(t@ =~= digit_table(upper));
    t[d as usize]
}

/// Appends `n` in base `base`, left-padded with zeros to `width` characters.
pub fn push_radix_padded(s: &mut String, n: u64, base: u64, upper: bool, width: usize)
    requires
        base == 10 || base == 16,
    ensures
        final(s)@ == old(s)@ + zero_pad(radix_digits(n as nat, base as nat, upper), width as nat),
{
    let mut digits: Vec<char> = Vec::new();
    let mut m: u64 = n;
    loop
        invariant_except_break
            base == 10 || base == 16,
            radix_digits(n as nat, base as nat, upper) == radix_digits(m as nat, base as nat, upper)
                + digits@,
        ensures
            radix_digits(n as nat, base as nat, upper) == digits@,
        decreases m,
    {
        let d = digit_char(m % base, upper);
        let ghost old_digits = digits@;
        digits.insert(0, d);
        proof {
            assert(digits@ =~= seq![d] + old_digits);
            if m >= base {
                assert(radix_digits(m as nat, base as nat, upper) == radix_digits(
                    (m / base) as nat,
                    base as nat,
                    upper,
                ).push(d));
                assert(radix_digits(m as nat, base as nat, upper) + old_digits =~= radix_digits(
                    (m / base) as nat,
                    base as nat,
                    upper,
                ) + digits@);
            } else {
                assert(radix_digits(m as nat, base as nat, upper) =~= seq![d]);
                assert(radix_digits(n as nat, base as nat, upper) =~= digits@);
            }
        }
        m = m / base;
        if m == 0 {
            break;
        }
    }
    let ghost ds = radix_digits(n as nat, base as nat, upper);
    assert(ds == digits@);
    let mut i: usize = digits.len();
    let ghost start = s@;
    while i < width
        invariant
            digits@.len() <= i,
            i <= width || i == digits@.len(),
            s@ == start + Seq::new((i - digits@.len()) as nat, |j: int| '0'),
        decreases width - i,
    {
        string_push(s, '0');
        proof {
            assert(Seq::new((i + 1 - digits@.len()) as nat, |j: int| '0') =~= Seq::new(
                (i - digits@.len()) as nat,
                |j: int| '0',
            ).push('0'));
        }
        i = i + 1;
    }
    let ghost pad = s@;
    let mut j: usize = 0;
    while j < digits.len()
        invariant
            j <= digits@.len(),
            s@ == pad + digits@.take(j as int),
        decreases digits@.len() - j,
    {
        string_push(s, digits[j]);
        proof {
            assert(digits@.take(j + 1) =~= digits@.take(j as int).push(digits@[j as int]));
        }
        j = j + 1;
    }
    proof {
        assert(digits@.take(digits@.len() as int) =~= digits@);
        if digits@.len() >= width {
            assert(Seq::new((i - digits@.len()) as nat, |j: int| '0') =~= Seq::<char>::empty());
            assert(s@ =~= start + ds);
        } else {
            assert(s@ =~= start + (Seq::new((width - ds.len()) as nat, |j: int| '0') + ds));
        }
    }
}

} // verus!

verus! {

/// A new string holding the text of `s`.
pub fn string_from(s: &str) -> (r: String)
    ensures
        r@ == s@,
{
    String::from_str(s)
}

/// Appends the text of `t` to `s`.
pub fn string_push_str(s: &mut String, t: &str)
    ensures
        final(s)@ == old(s)@ + t@,
{
    s.append(t);
}

/// A copy of an optional string.
pub fn clone_opt_string(o: &Option<String>) -> (r: Option<String>)
    ensures
        r == *o,
{
    match o {
        Some(s) => Some(s.clone()),
        None => None,
    }
}

} // verus!

verus! {

/// The number a string of decimal digits stands for.
pub open spec fn decimal_value(s: Seq<char>) -> int
    decreases s.len(),
{
    if s.len() == 0 {
        0
    } else {
        decimal_value(s.drop_last()) * 10 + (s.last() as int - '0' as int)
    }
}

proof fn lemma_decimal_digit(d: int)
    requires
        0 <= d < 10,
    ensures
        digit_table(false)[d] as int - '0' as int == d,
{
    assert(digit_table(false)[0] == '0');
    assert(digit_table(false)[1] == '1');
    assert(digit_table(false)[2] == '2');
    assert(digit_table(false)[3] == '3');
    assert(digit_table(false)[4] == '4');
    assert(digit_table(false)[5] == '5');
    assert(digit_table(false)[6] == '6');
    assert(digit_table(false)[7] == '7');
    assert(digit_table(false)[8] == '8');
    assert(digit_table(false)[9] == '9');
}

/// The decimal digits of `n` read back give `n`.
pub proof fn lemma_decimal_value_digits(n: nat)
    ensures
        decimal_value(radix_digits(n, 10, false)) == n,
    decreases n,
{
    let s = radix_digits(n, 10, false);
    if n < 10 {
        lemma_decimal_digit(n as int);
        assert(s == seq![digit_table(false)[n as int]]);
        assert(s.drop_last() =~= Seq::<char>::empty());
        assert(decimal_value(s) == decimal_value(s.drop_last()) * 10 + (s.last() as int - '0' as int));
    } else {
        lemma_decimal_value_digits(n / 10);
        lemma_decimal_digit((n % 10) as int);
        let t = radix_digits(n / 10, 10, false);
        assert(s == t.push(digit_table(false)[(n % 10) as int]));
        assert(s.drop_last() =~= t);
        assert(decimal_value(s) == decimal_value(t) * 10 + (s.last() as int - '0' as int));
        assert(n == (n / 10) * 10 + n % 10);
    }
}

/// Leading zeros do not change the value.
pub proof fn lemma_decimal_value_zeros(k: nat, s: Seq<char>)
    ensures
        decimal_value(Seq::new(k, |i: int| '0') + s) == decimal_value(s),
    decreases s.len(), k,
{
    let z = Seq::new(k, |i: int| '0');
    if s.len() == 0 {
        assert(z + s =~= z);
        if k > 0 {
            lemma_decimal_value_zeros((k - 1) as nat, s);
            assert(z.drop_last() =~= Seq::new((k - 1) as nat, |i: int| '0') + s);
        }
    } else {
        lemma_decimal_value_zeros(k, s.drop_last());
        assert((z + s).drop_last() =~= z + s.drop_last());
    }
}

/// Different counters give different zero-padded decimal strings.
pub proof fn lemma_padded_decimal_injective(a: nat, b: nat, width: nat)
    requires
        zero_pad(radix_digits(a, 10, false), width) == zero_pad(radix_digits(b, 10, false), width),
    ensures
        a == b,
{
    let da = radix_digits(a, 10, false);
    let db = radix_digits(b, 10, false);
    lemma_decimal_value_digits(a);
    lemma_decimal_value_digits(b);
    if da.len() < width {
        lemma_decimal_value_zeros((width - da.len()) as nat, da);
    }
    if db.len() < width {
        lemma_decimal_value_zeros((width - db.len()) as nat, db);
    }
}

} // verus!
