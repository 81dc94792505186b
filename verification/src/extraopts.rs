use vstd::prelude::*;

verus! {

/// Whether a text begins with a prefix.
pub open spec fn has_prefix(s: Seq<char>, p: Seq<char>) -> bool {
    p.len() <= s.len() && s.subrange(0, p.len() as int) == p
}

/// The marker of the options that a query passes on unchanged.
pub open spec fn private_prefix() -> Seq<char> {
    "private_"@
}

/// The pairs whose key carries the private marker, in their order.
pub open spec fn keep_private(s: Seq<(String, String)>) -> Seq<(String, String)>
    decreases s.len(),
{
    if s.len() == 0 {
        s
    } else if has_prefix(s.last().0@, private_prefix()) {
        keep_private(s.drop_last()).push(s.last())
    } else {
        keep_private(s.drop_last())
    }
}

fn starts_with(s: &str, p: &str) -> (r: bool)
    ensures
        r == has_prefix(s@, p@),
{
    let n = p.unicode_len();
    if s.unicode_len() < n {
        return false;
    }
    let mut i: usize = 0;
    while i < n
        invariant
            0 <= i <= n,
            n == p@.len(),
            n <= s@.len(),
            s@.subrange(0, i as int) == p@.subrange(0, i as int),
        decreases n - i,
    {
        if s.get_char(i) != p.get_char(i) {
            assert(s@.subrange(0, n as int)[i as int] != p@[i as int]);
            return false;
        }
        assert(s@.subrange(0, i + 1) =~= s@.subrange(0, i as int).push(s@[i as int]));
        assert(p@.subrange(0, i + 1) =~= p@.subrange(0, i as int).push(p@[i as int]));
        i = i + 1;
    }
    assert(p@.subrange(0, n as int) =~= p@);
    true
}

/// The extra options of a query: the options whose name starts with
/// `private_`, kept in the order of their names.
#[derive(Debug, Clone, PartialEq, Eq)]
pub struct ExtraOptsQuery {
    extras: Vec<(String, String)>,
}

impl ExtraOptsQuery {
    pub closed spec fn extras_spec(&self) -> Seq<(String, String)> {
        self.extras@
    }

    pub fn new() -> (r: Self)
        ensures
            r.extras_spec().len() == 0,
    {
        ExtraOptsQuery { extras: Vec::new() }
    }

    pub fn extras(&self) -> (r: &Vec<(String, String)>)
        ensures
            r@ == self.extras_spec(),
    {
        &self.extras
    }

    /// The extra options among the query pairs, which come ordered by name:
    /// those whose name starts with `private_`.
    pub fn from_pairs(pairs: &Vec<(String, String)>) -> (r: Self)
        ensures
            r.extras_spec() == keep_private(pairs@),
    {
        let mut extras: Vec<(String, String)> = Vec::new();
        let mut i: usize = 0;
        while i < pairs.len()
            invariant
                0 <= i <= pairs@.len(),
                extras@ == keep_private(pairs@.subrange(0, i as int)),
            decreases pairs@.len() - i,
        {
            let (k, v) = &pairs[i];
            proof {
                assert(pairs@.subrange(0, i + 1).drop_last() =~= pairs@.subrange(0, i as int));
                reveal_strlit("private_");
            }
            if starts_with(k.as_str(), "private_") {
                extras.push((k.clone(), v.clone()));
            }
            i = i + 1;
        }
        proof {
            assert(pairs@.subrange(0, i as int) =~= pairs@);
        }
        ExtraOptsQuery { extras }
    }
}

} // verus!
