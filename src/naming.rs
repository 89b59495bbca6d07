use vstd::prelude::*;

verus! {

/// Index of the last `.` in `s`, or -1 when there is none.
pub open spec fn last_dot(s: Seq<char>) -> int
    decreases s.len(),
{
    if s.len() == 0 {
        -1
    } else if s.last() == '.' {
        s.len() - 1
    } else {
        last_dot(s.drop_last())
    }
}

/// A file name split into its stem and its extension suffix (the dot and what
/// follows it). A name without a dot, or whose only dot leads it, has no
/// extension; a trailing dot leaves an empty one.
pub open spec fn stem_and_suffix(name: Seq<char>) -> (Seq<char>, Seq<char>) {
    let k = last_dot(name);
    if k <= 0 {
        (name, Seq::empty())
    } else if k + 1 == name.len() {
        (name.subrange(0, k), Seq::empty())
    } else {
        (name.subrange(0, k), name.subrange(k, name.len() as int))
    }
}

/// Splits a file name into stem and extension suffix.
pub fn split_name(name: &str) -> (r: (String, String))
    ensures
        (r.0@, r.1@) == stem_and_suffix(name@),
{
    let n = name.unicode_len();
    let mut i: usize = n;
    assert(name@.subrange(0, n as int) =~= name@);
    // scan backwards for the last dot
    while i > 0 && name.get_char(i - 1) != '.'
        invariant
            i <= n,
            n == name@.len(),
            last_dot(name@) == last_dot(name@.subrange(0, i as int)),
        decreases i,
    {
        assert(name@.subrange(0, i as int).drop_last() =~= name@.subrange(0, i - 1));
        i = i - 1;
    }
    proof {
        if i > 0 {
            assert(name@.subrange(0, i as int).last() == '.');
        } else {
            assert(name@.subrange(0, 0) =~= Seq::<char>::empty());
        }
    }
    if i <= 1 {
        (String::from_str(name), String::new())
    } else if i == n {
        (String::from_str(name.substring_char(0, i - 1)), String::new())
    } else {
        (String::from_str(name.substring_char(0, i - 1)), String::from_str(name.substring_char(i - 1, n)))
    }
}

/// The character of a decimal digit.
pub open spec fn digit_char(d: nat) -> char {
    if d == 0 { '0' }
    else if d == 1 { '1' }
    else if d == 2 { '2' }
    else if d == 3 { '3' }
    else if d == 4 { '4' }
    else if d == 5 { '5' }
    else if d == 6 { '6' }
    else if d == 7 { '7' }
    else if d == 8 { '8' }
    else { '9' }
}

/// The decimal notation of `n`, without leading zeros.
pub open spec fn decimal(n: nat) -> Seq<char>
    decreases n,
{
    if n < 10 {
        seq![digit_char(n)]
    } else {
        decimal(n / 10).push(digit_char(n % 10))
    }
}

fn digit_text(d: u64) -> (r: &'static str)
    requires
        d < 10,
    ensures
        r@ == seq![digit_char(d as nat)],
{
    proof {
        reveal_strlit("0");
        reveal_strlit("1");
        reveal_strlit("2");
        reveal_strlit("3");
        reveal_strlit("4");
        reveal_strlit("5");
        reveal_strlit("6");
        reveal_strlit("7");
        reveal_strlit("8");
        reveal_strlit("9");
    }
    let r = if d == 0 { "0" }
        else if d == 1 { "1" }
        else if d == 2 { "2" }
        else if d == 3 { "3" }
        else if d == 4 { "4" }
        else if d == 5 { "5" }
        else if d == 6 { "6" }
        else if d == 7 { "7" }
        else if d == 8 { "8" }
        else { "9" };
    assert(r@ =~= seq![digit_char(d as nat)]);
    r
}

/// The decimal notation of `n`.
pub fn decimal_text(n: u64) -> (r: String)
    ensures
        r@ == decimal(n as nat),
    decreases n,
{
    if n < 10 {
        String::from_str(digit_text(n))
    } else {
        let mut s = decimal_text(n / 10);
        s.append(digit_text(n % 10));
        assert(s@ =~= decimal(n as nat));
        s
    }
}

/// The name of the `n`-th copy of a file: `stem (copy)suffix` for the first,
/// `stem (copy n)suffix` from the second on.
pub open spec fn copy_name(stem: Seq<char>, suffix: Seq<char>, n: nat) -> Seq<char> {
    if n <= 1 {
        stem + " (copy)"@ + suffix
    } else {
        stem + " (copy "@ + decimal(n) + ")"@ + suffix
    }
}

/// Forms the name of the `n`-th copy.
pub fn copy_name_text(stem: &str, suffix: &str, n: u64) -> (r: String)
    ensures
        r@ == copy_name(stem@, suffix@, n as nat),
{
    let mut s = String::from_str(stem);
    if n <= 1 {
        s.append(" (copy)");
    } else {
        s.append(" (copy ");
        let digits = decimal_text(n);
        s.append(digits.as_str());
        s.append(")");
    }
    s.append(suffix);
    s
}

proof fn lemma_decimal_len(n: nat)
    ensures
        decimal(n).len() >= 1,
        n >= 10 ==> decimal(n).len() >= 2,
    decreases n,
{
    if n >= 10 {
        lemma_decimal_len(n / 10);
    }
}

/// Different numbers have different decimal notations.
pub proof fn lemma_decimal_injective(a: nat, b: nat)
    requires
        decimal(a) == decimal(b),
    ensures
        a == b,
    decreases a,
{
    lemma_decimal_len(a);
    lemma_decimal_len(b);
    if a < 10 && b < 10 {
        assert(decimal(a)[0] == digit_char(a));
        assert(decimal(b)[0] == digit_char(b));
    } else if a >= 10 && b >= 10 {
        let da = decimal(a);
        let db = decimal(b);
        assert(da.last() == digit_char(a % 10));
        assert(db.last() == digit_char(b % 10));
        assert(da.drop_last() =~= decimal(a / 10));
        assert(db.drop_last() =~= decimal(b / 10));
        lemma_decimal_injective(a / 10, b / 10);
        assert(a == 10 * (a / 10) + a % 10) by (nonlinear_arith);
        assert(b == 10 * (b / 10) + b % 10) by (nonlinear_arith);
    }
}

/// The copy naming sequence never repeats a name: the `i`-th and `j`-th copy
/// names differ whenever `i` and `j` are different positions of it.
pub proof fn lemma_copy_names_distinct(stem: Seq<char>, suffix: Seq<char>, i: nat, j: nat)
    requires
        1 <= i < j,
    ensures
        copy_name(stem, suffix, i) != copy_name(stem, suffix, j),
{
    reveal_strlit(" (copy)");
    reveal_strlit(" (copy ");
    reveal_strlit(")");
    let sj = copy_name(stem, suffix, j);
    let head = stem + " (copy "@;
    assert(sj == head + decimal(j) + ")"@ + suffix);
    lemma_decimal_len(j);
    assert(sj[stem.len() + 6int] == ' ');
    if i == 1 {
        let si = copy_name(stem, suffix, i);
        assert(si[stem.len() + 6int] == ')');
    } else {
        let si = copy_name(stem, suffix, i);
        assert(si == head + decimal(i) + ")"@ + suffix);
        if si == sj {
            lemma_decimal_len(i);
            assert(decimal(i).len() == decimal(j).len());
            let lo = head.len() as int;
            let hi = lo + decimal(i).len();
            assert(si.subrange(lo, hi) =~= decimal(i));
            assert(sj.subrange(lo, hi) =~= decimal(j));
            lemma_decimal_injective(i, j);
        }
    }
}

} // verus!
