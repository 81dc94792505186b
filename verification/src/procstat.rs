use vstd::prelude::*;

verus! {

/// The fields of a text split at every occurrence of `sep`, as `str::split`
/// gives them: consecutive separators give empty fields.
pub open spec fn split_on(s: Seq<char>, sep: char) -> Seq<Seq<char>>
    decreases s.len(),
{
    if s.len() == 0 {
        seq![Seq::empty()]
    } else {
        let r = split_on(s.drop_last(), sep);
        if s.last() == sep {
            r.push(Seq::empty())
        } else {
            r.update(r.len() - 1, r.last().push(s.last()))
        }
    }
}

/// The fields of a text split at every single space, as `str::split(" ")`
/// gives them.
pub open spec fn split_sp(s: Seq<char>) -> Seq<Seq<char>> {
    split_on(s, ' ')
}

pub proof fn lemma_split_on_nonempty(s: Seq<char>, sep: char)
    ensures
        split_on(s, sep).len() >= 1,
    decreases s.len(),
{
    if s.len() > 0 {
        lemma_split_on_nonempty(s.drop_last(), sep);
    }
}

/// A text without the separator is one field.
pub proof fn lemma_split_on_no_sep(x: Seq<char>, sep: char)
    requires
        forall|i: int| 0 <= i < x.len() ==> x[i] != sep,
    ensures
        split_on(x, sep) == seq![x],
    decreases x.len(),
{
    if x.len() > 0 {
        let d = x.drop_last();
        lemma_split_on_no_sep(d, sep);
        assert(x.last() != sep);
        assert(d.push(x.last()) =~= x);
        assert(seq![d].update(0, d.push(x.last())) =~= seq![x]);
    } else {
        assert(x =~= Seq::<char>::empty());
    }
}

/// The fields of two texts joined by a separator are those of the first
/// followed by those of the second.
pub proof fn lemma_split_on_join(x: Seq<char>, y: Seq<char>, sep: char)
    ensures
        split_on(x + seq![sep] + y, sep) == split_on(x, sep) + split_on(y, sep),
    decreases y.len(),
{
    let p = x + seq![sep];
    assert(p.drop_last() =~= x);
    if y.len() == 0 {
        assert(p + y =~= p);
        assert(split_on(y, sep) =~= seq![Seq::<char>::empty()]);
        assert(split_on(x, sep).push(Seq::<char>::empty()) =~= split_on(x, sep) + split_on(y, sep));
    } else {
        let yd = y.drop_last();
        lemma_split_on_join(x, yd, sep);
        lemma_split_on_nonempty(yd, sep);
        assert((p + y).drop_last() =~= p + yd);
        assert((p + y).last() == y.last());
        let a = split_on(x, sep);
        let b = split_on(yd, sep);
        if y.last() == sep {
            assert((a + b).push(Seq::<char>::empty()) =~= a + b.push(Seq::<char>::empty()));
        } else {
            assert((a + b).update((a + b).len() - 1, (a + b).last().push(y.last())) =~= a + b.update(
                b.len() - 1,
                b.last().push(y.last()),
            ));
        }
    }
}

pub open spec fn is_digit(c: char) -> bool {
    '0' <= c && c <= '9'
}

pub open spec fn digit_value(c: char) -> nat {
    (c as int - '0' as int) as nat
}

/// The value of a string of decimal digits.
pub open spec fn dec_value(d: Seq<char>) -> nat
    decreases d.len(),
{
    if d.len() == 0 {
        0
    } else {
        dec_value(d.drop_last()) * 10 + digit_value(d.last())
    }
}

pub open spec fn all_digits(d: Seq<char>) -> bool {
    forall|i: int| 0 <= i < d.len() ==> is_digit(#[trigger] d[i])
}

/// The digits of an unsigned number as `str::parse::<u64>` reads it: an
/// optional plus sign, then the digits.
pub open spec fn unsigned_digits(s: Seq<char>) -> Seq<char> {
    if s.len() > 0 && s[0] == '+' {
        s.drop_first()
    } else {
        s
    }
}

/// The number that `str::parse::<u64>` reads from a text: one or more
/// decimal digits after an optional plus sign, within the range of `u64`.
pub open spec fn parse_u64_spec(s: Seq<char>) -> Option<u64> {
    let d = unsigned_digits(s);
    if d.len() > 0 && all_digits(d) && dec_value(d) <= u64::MAX {
        Some(dec_value(d) as u64)
    } else {
        None
    }
}

/// A longer string of digits has a value at least that of its prefix.
pub proof fn lemma_dec_value_prefix(d: Seq<char>, k: int)
    requires
        0 <= k <= d.len(),
        all_digits(d),
    ensures
        dec_value(d.subrange(0, k)) <= dec_value(d),
    decreases d.len() - k,
{
    if k < d.len() {
        lemma_dec_value_prefix(d, k + 1);
        let p = d.subrange(0, k + 1);
        assert(p.drop_last() =~= d.subrange(0, k));
        assert(dec_value(p) == dec_value(d.subrange(0, k)) * 10 + digit_value(p.last()));
    } else {
        assert(d.subrange(0, k) =~= d);
    }
}

/// Reads an unsigned number as `str::parse::<u64>` does.
pub fn parse_u64(s: &str) -> (r: Option<u64>)
    ensures
        r == parse_u64_spec(s@),
{
    let n = s.unicode_len();
    let mut start: usize = 0;
    if n > 0 && s.get_char(0) == '+' {
        start = 1;
    }
    let ghost d = unsigned_digits(s@);
    proof {
        assert(d =~= s@.subrange(start as int, n as int));
    }
    if start == n {
        return None;
    }
    let mut acc: u64 = 0;
    let mut i: usize = start;
    while i < n
        invariant
            start <= i <= n,
            n == s@.len(),
            d == s@.subrange(start as int, n as int),
            d == unsigned_digits(s@),
            all_digits(d.subrange(0, i - start)),
            acc == dec_value(d.subrange(0, i - start)),
        decreases n - i,
    {
        let c = s.get_char(i);
        proof {
            assert(d[i - start] == c);
        }
        if !('0' <= c && c <= '9') {
            proof {
                assert(!all_digits(d));
            }
            return None;
        }
        let dig: u64 = (c as u32 - '0' as u32) as u64;
        let ghost p = d.subrange(0, i - start + 1);
        proof {
            assert(p.drop_last() =~= d.subrange(0, i - start));
            assert(p.last() == c);
            assert(dig == digit_value(c));
            assert(all_digits(p));
        }
        match acc.checked_mul(10) {
            Some(a10) => match a10.checked_add(dig) {
                Some(a) => {
                    acc = a;
                },
                None => {
                    proof {
                        lemma_all_digits_prefix_to_whole(d, p, i - start + 1);
                    }
                    return None;
                },
            },
            None => {
                proof {
                    lemma_all_digits_prefix_to_whole(d, p, i - start + 1);
                }
                return None;
            },
        }
        i = i + 1;
    }
    proof {
        assert(d.subrange(0, i - start) =~= d);
    }
    Some(acc)
}

/// Where the value of a prefix of digits is out of range, the whole number
/// is not read, whether the rest are digits or not.
proof fn lemma_all_digits_prefix_to_whole(d: Seq<char>, p: Seq<char>, k: int)
    requires
        0 <= k <= d.len(),
        p == d.subrange(0, k),
        all_digits(p),
        dec_value(p) > u64::MAX,
    ensures
        !(d.len() > 0 && all_digits(d) && dec_value(d) <= u64::MAX),
{
    if all_digits(d) {
        lemma_dec_value_prefix(d, k);
    }
}

/// The `k`-th field of a text split at `sep`.
pub fn nth_field_on(s: &str, sep: char, k: usize) -> (r: Option<String>)
    ensures
        match r {
            Some(f) => k < split_on(s@, sep).len() && f@ == split_on(s@, sep)[k as int],
            None => k >= split_on(s@, sep).len(),
        },
{
    let n = s.unicode_len();
    let mut field: usize = 0;
    let mut start: usize = 0;
    let mut i: usize = 0;
    proof {
        assert(s@.subrange(0, 0) =~= Seq::<char>::empty());
    }
    while i < n
        invariant
            0 <= start <= i <= n,
            n == s@.len(),
            field <= k,
            field + 1 == split_on(s@.subrange(0, i as int), sep).len(),
            split_on(s@.subrange(0, i as int), sep).last() == s@.subrange(start as int, i as int),
        decreases n - i,
    {
        let c = s.get_char(i);
        proof {
            let q = s@.subrange(0, i + 1);
            assert(q.drop_last() =~= s@.subrange(0, i as int));
            assert(q.last() == c);
        }
        if c == sep {
            if field == k {
                let f = String::from_str(s.substring_char(start, i));
                proof {
                    lemma_split_on_prefix_stable(s@, sep, i as int, field as int);
                }
                return Some(f);
            }
            field = field + 1;
            start = i + 1;
            proof {
                assert(s@.subrange(start as int, i + 1) =~= Seq::<char>::empty());
            }
        } else {
            proof {
                assert(s@.subrange(start as int, i + 1) =~= s@.subrange(start as int, i as int).push(c));
            }
        }
        i = i + 1;
    }
    proof {
        assert(s@.subrange(0, n as int) =~= s@);
    }
    if field == k {
        Some(String::from_str(s.substring_char(start, n)))
    } else {
        None
    }
}

/// Once a separator closes a field, later text leaves the fields before it
/// as they are.
proof fn lemma_split_on_prefix_stable(s: Seq<char>, sep: char, i: int, f: int)
    requires
        0 <= i < s.len(),
        s[i] == sep,
        0 <= f < split_on(s.subrange(0, i), sep).len(),
    ensures
        f < split_on(s, sep).len(),
        split_on(s, sep)[f] == split_on(s.subrange(0, i), sep)[f],
    decreases s.len() - i,
{
    lemma_split_on_step(s, sep, s.len() as int, i, f);
    assert(s.subrange(0, s.len() as int) =~= s);
}

/// The fields up to index `f` of the text up to `j` are those of the text up
/// to `i`, where the field `f` was closed by the separator at `i`.
proof fn lemma_split_on_step(s: Seq<char>, sep: char, j: int, i: int, f: int)
    requires
        0 <= i < j <= s.len(),
        s[i] == sep,
        0 <= f < split_on(s.subrange(0, i), sep).len(),
    ensures
        f < split_on(s.subrange(0, j), sep).len() - 1,
        split_on(s.subrange(0, j), sep)[f] == split_on(s.subrange(0, i), sep)[f],
    decreases j - i,
{
    let q = s.subrange(0, j);
    assert(q.drop_last() =~= s.subrange(0, j - 1));
    lemma_split_on_nonempty(s.subrange(0, i), sep);
    if j == i + 1 {
        assert(q.last() == sep);
    } else {
        lemma_split_on_step(s, sep, j - 1, i, f);
        lemma_split_on_nonempty(s.subrange(0, j - 1), sep);
    }
    if j == s.len() {
        assert(q =~= s);
    }
}

/// The `k`-th field of a text split at single spaces.
pub fn nth_field(s: &str, k: usize) -> (r: Option<String>)
    ensures
        match r {
            Some(f) => k < split_sp(s@).len() && f@ == split_sp(s@)[k as int],
            None => k >= split_sp(s@).len(),
        },
{
    nth_field_on(s, ' ', k)
}

/// The processor time of the process from the text of `/proc/self/stat`:
/// the sum of its user and system ticks, the fourteenth and fifteenth
/// fields; zero where either is missing or not a number. A sum past the
/// range of `u64` wraps.
pub open spec fn cpu_usage_spec(s: Seq<char>) -> u64 {
    let f = split_sp(s);
    if f.len() > 14 {
        match (parse_u64_spec(f[13]), parse_u64_spec(f[14])) {
            (Some(u), Some(t)) => ((u + t) % 0x1_0000_0000_0000_0000) as u64,
            _ => 0,
        }
    } else {
        0
    }
}

fn add_wrap(a: u64, b: u64) -> (r: u64)
    ensures
        r == (a + b) % 0x1_0000_0000_0000_0000,
{
    if a <= u64::MAX - b {
        a + b
    } else {
        a - (u64::MAX - b) - 1
    }
}

pub fn cpu_usage_from_stat(s: &str) -> (r: u64)
    ensures
        r == cpu_usage_spec(s@),
{
    let u = nth_field(s, 13);
    let t = nth_field(s, 14);
    match (u, t) {
        (Some(u), Some(t)) => {
            proof {
                lemma_split_on_nonempty(s@, ' ');
            }
            match (parse_u64(u.as_str()), parse_u64(t.as_str())) {
                (Some(a), Some(b)) => add_wrap(a, b),
                _ => 0,
            }
        },
        (Some(_), None) => 0,
        (None, _) => {
            proof {
                assert(split_sp(s@).len() <= 13);
            }
            0
        },
    }
}

/// The resident memory of the process from the text of `/proc/self/statm`
/// and the page size: the second field in pages times the page size; zero
/// where the field is missing or not a number. A product past the range of
/// `u64` wraps.
pub open spec fn memory_usage_spec(s: Seq<char>, page_size: u64) -> u64 {
    let f = split_sp(s);
    if f.len() > 1 {
        match parse_u64_spec(f[1]) {
            Some(n) => ((n * page_size) % 0x1_0000_0000_0000_0000) as u64,
            None => 0,
        }
    } else {
        0
    }
}

pub fn memory_usage_from_statm(s: &str, page_size: u64) -> (r: u64)
    ensures
        r == memory_usage_spec(s@, page_size),
{
    match nth_field(s, 1) {
        Some(f) => match parse_u64(f.as_str()) {
            Some(n) => {
                let r = n.wrapping_mul(page_size);
                proof {
                    assert(r == vstd::wrapping::u64_specs::wrapping_mul(n, page_size));
                }
                r
            },
            None => 0,
        },
        None => 0,
    }
}

} // verus!
