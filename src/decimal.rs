use vstd::prelude::*;

verus! {

/// Whether `c` is an ASCII decimal digit.
pub open spec fn is_digit(c: char) -> bool {
    '0' <= c && c <= '9'
}

/// The value of a decimal digit.
pub open spec fn digit_value(c: char) -> int {
    (c as int) - ('0' as int)
}

/// Whether `s` is a non-empty run of decimal digits.
pub open spec fn is_decimal(s: Seq<char>) -> bool {
    s.len() > 0 && forall|i: int| 0 <= i < s.len() ==> is_digit(#[trigger] s[i])
}

/// The number that a run of decimal digits writes.
pub open spec fn decimal_value(s: Seq<char>) -> int
    decreases s.len(),
{
    if s.len() == 0 {
        0
    } else {
        decimal_value(s.drop_last()) * 10 + digit_value(s.last())
    }
}

/// A run of digits is worth at least any of its prefixes.
proof fn lemma_prefix_value(s: Seq<char>, k: int)
    requires
        0 <= k <= s.len(),
        forall|i: int| 0 <= i < s.len() ==> is_digit(#[trigger] s[i]),
    ensures
        0 <= decimal_value(s.take(k)) <= decimal_value(s),
    decreases s.len(),
{
    if s.len() > 0 {
        let p = s.drop_last();
        assert forall|i: int| 0 <= i < p.len() implies is_digit(#[trigger] p[i]) by {
            assert(p[i] == s[i]);
        }
        if k == s.len() {
            assert(s.take(k) =~= s);
            lemma_prefix_value(p, p.len() as int);
            assert(p.take(p.len() as int) =~= p);
            assert(is_digit(s[s.len() - 1]));
        } else {
            lemma_prefix_value(p, k);
            assert(p.take(k) =~= s.take(k));
            lemma_prefix_value(p, p.len() as int);
            assert(p.take(p.len() as int) =~= p);
            assert(is_digit(s[s.len() - 1]));
        }
    }
}

/// The number that `s` writes in decimal, where it is a run of digits worth
/// at most `max`.
pub fn parse_decimal(s: &str, max: u64) -> (r: Option<u64>)
    ensures
        r == (if is_decimal(s@) && decimal_value(s@) <= max {
            Some(decimal_value(s@) as u64)
        } else {
            None::<u64>
        }),
        r matches Some(v) ==> v as int == decimal_value(s@) && v <= max,
{
    let n = s.unicode_len();
    if n == 0 {
        return None;
    }
    let mut v: u128 = 0;
    let mut i: usize = 0;
    while i < n
        invariant
            n == s@.len(),
            i <= n,
            forall|j: int| 0 <= j < i ==> is_digit(#[trigger] s@[j]),
            v as int == decimal_value(s@.take(i as int)),
            v <= max,
        decreases n - i,
    {
        let c = s.get_char(i);
        if !('0' <= c && c <= '9') {
            return None;
        }
        let d = (c as u32 - '0' as u32) as u128;
        proof {
            assert(s@.take(i + 1).drop_last() =~= s@.take(i as int));
        }
        v = v * 10 + d;
        i = i + 1;
        if v > max as u128 {
            if is_all_digits(s, i, n) {
                proof {
                    lemma_prefix_value(s@, i as int);
                }
            }
            return None;
        }
    }
    assert(s@.take(n as int) =~= s@);
    Some(v as u64)
}

/// Whether the characters of `s` from `from` to `to` are all digits.
fn is_all_digits(s: &str, from: usize, to: usize) -> (r: bool)
    requires
        from <= to == s@.len(),
        forall|j: int| 0 <= j < from ==> is_digit(#[trigger] s@[j]),
    ensures
        r == forall|j: int| 0 <= j < s@.len() ==> is_digit(#[trigger] s@[j]),
{
    let mut i = from;
    while i < to
        invariant
            from <= i <= to == s@.len(),
            forall|j: int| 0 <= j < i ==> is_digit(#[trigger] s@[j]),
        decreases to - i,
    {
        let c = s.get_char(i);
        if !('0' <= c && c <= '9') {
            return false;
        }
        i = i + 1;
    }
    true
}

/// The one-character text of a decimal digit.
fn digit_text(d: u64) -> (r: &'static str)
    requires
        d < 10,
    ensures
        r@.len() == 1,
        is_digit(r@[0]),
        digit_value(r@[0]) == d,
{
    proof {
        reveal_strlit("0");
        reveal_strlit("1");
        reveal_strlit("2");
        reveal_strlit("3");
        reveal_strlit("4");
        reveal_strlit("5");
        reveal_strlit("6");
        reveal_strlit("7");
        reveal_strlit("8");
        reveal_strlit("9");
    }
    match d {
        0 => "0",
        1 => "1",
        2 => "2",
        3 => "3",
        4 => "4",
        5 => "5",
        6 => "6",
        7 => "7",
        8 => "8",
        _ => "9",
    }
}

/// The decimal text of `n`, without leading zeros.
pub fn decimal_text(n: u64) -> (r: String)
    ensures
        is_decimal(r@),
        decimal_value(r@) == n,
        r@.len() == 1 || r@[0] != '0',
    decreases n,
{
    let d = digit_text(n % 10);
    if n < 10 {
        let r = String::from_str(d);
        assert(r@.drop_last() =~= Seq::<char>::empty());
        assert(decimal_value(Seq::<char>::empty()) == 0);
        assert(decimal_value(r@) == digit_value(r@[0]));
        r
    } else {
        let mut s = decimal_text(n / 10);
        let ghost head = s@;
        s.append(d);
        proof {
            assert(s@.drop_last() =~= head);
            assert(s@.last() == d@[0]);
            assert forall|i: int| 0 <= i < s@.len() implies is_digit(#[trigger] s@[i]) by {
                if i < head.len() {
                    assert(s@[i] == head[i]);
                }
            }
            assert(s@[0] == head[0]);
            if head.len() == 1 {
                assert(head.drop_last() =~= Seq::<char>::empty());
                assert(decimal_value(Seq::<char>::empty()) == 0);
                assert(decimal_value(head) == digit_value(head[0]));
            }
            assert(n == (n / 10) * 10 + n % 10);
            assert(decimal_value(s@) == decimal_value(head) * 10 + digit_value(s@.last()));
            assert(decimal_value(s@) == n);
            if head.len() == 1 {
                assert(head[0] != '0');
            }
            assert(s@[0] != '0');
        }
        s
    }
}

} // verus!
