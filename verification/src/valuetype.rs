use vstd::prelude::*;
use crate::strorder::{str_eq, str_less, str_lt};
use std::cmp::Ordering;

verus! {

/// How many bytes one enum value counts for in a container's estimate.
pub const ENUM_VARIANT_BYTES: u32 = 24;

/// A value of an enum channel: the index of the variant and its name.
#[derive(Debug, Clone, PartialEq, Eq)]
pub struct EnumVariant {
    pub ix: i16,
    pub name: String,
}

impl EnumVariant {
    pub fn new(ix: i16, name: String) -> (r: Self)
        ensures
            r.ix == ix,
            r.name == name,
    {
        EnumVariant { ix, name }
    }

    /// The value as the containers view it.
    pub open spec fn view_pair(&self) -> (i16, Seq<char>) {
        (self.ix, self.name@)
    }
}

/// A borrowed enum value.
#[derive(Debug, Clone, Copy, PartialEq, Eq)]
pub struct EnumVariantRef<'a> {
    pub ix: i16,
    pub name: &'a str,
}

/// The order of enum values: by index, then by name.
pub open spec fn enum_lt(a: (i16, Seq<char>), b: (i16, Seq<char>)) -> bool {
    a.0 < b.0 || (a.0 == b.0 && str_lt(a.1, b.1))
}

impl<'a> EnumVariantRef<'a> {
    /// Compares with a value: by index, then by name.
    pub fn cmp_a(&self, other: &EnumVariant) -> (r: Option<Ordering>)
        ensures
            r == Some(
                if enum_lt((self.ix, self.name@), other.view_pair()) {
                    Ordering::Less
                } else if (self.ix, self.name@) == other.view_pair() {
                    Ordering::Equal
                } else {
                    Ordering::Greater
                },
            ),
    {
        if self.ix < other.ix {
            Some(Ordering::Less)
        } else if self.ix > other.ix {
            Some(Ordering::Greater)
        } else if str_less(self.name, other.name.as_str()) {
            Some(Ordering::Less)
        } else if str_eq(self.name, other.name.as_str()) {
            Some(Ordering::Equal)
        } else {
            proof {
                crate::strorder::lemma_str_lt_irreflexive(self.name@);
            }
            Some(Ordering::Greater)
        }
    }
}

/// The values of an enum channel: their indices and names, side by side.
#[derive(Debug, Clone)]
pub struct EnumVariantContainer {
    ixs: Vec<i16>,
    names: Vec<String>,
}

/// The values of two parallel columns.
pub open spec fn zip_view(ixs: Seq<i16>, names: Seq<String>) -> Seq<(i16, Seq<char>)> {
    Seq::new(ixs.len(), |i: int| (ixs[i], names[i]@))
}

proof fn lemma_zip_remove(ixs: Seq<i16>, names: Seq<String>, i: int)
    requires
        ixs.len() == names.len(),
        0 <= i < ixs.len(),
    ensures
        zip_view(ixs.remove(i), names.remove(i)) == zip_view(ixs, names).remove(i),
{
    assert(zip_view(ixs.remove(i), names.remove(i)) =~= zip_view(ixs, names).remove(i));
}

proof fn lemma_zip_push(ixs: Seq<i16>, names: Seq<String>, a: i16, b: String)
    requires
        ixs.len() == names.len(),
    ensures
        zip_view(ixs.push(a), names.push(b)) == zip_view(ixs, names).push((a, b@)),
{
    assert(zip_view(ixs.push(a), names.push(b)) =~= zip_view(ixs, names).push((a, b@)));
}

impl EnumVariantContainer {
    /// The values, in order.
    pub closed spec fn view_seq(&self) -> Seq<(i16, Seq<char>)> {
        zip_view(self.ixs@, self.names@)
    }

    /// Both columns have one entry per value.
    pub closed spec fn wf(&self) -> bool {
        self.ixs@.len() == self.names@.len()
    }

    pub fn new() -> (r: Self)
        ensures
            r.wf(),
            r.view_seq().len() == 0,
    {
        EnumVariantContainer { ixs: Vec::new(), names: Vec::new() }
    }

    pub fn len(&self) -> (r: usize)
        requires
            self.wf(),
        ensures
            r == self.view_seq().len(),
    {
        self.ixs.len()
    }

    pub fn push_back(&mut self, val: EnumVariant)
        requires
            old(self).wf(),
        ensures
            final(self).wf(),
            final(self).view_seq() == old(self).view_seq().push(val.view_pair()),
    {
        self.ixs.push(val.ix);
        self.names.push(val.name);
        proof {
            assert(zip_view(self.ixs@, self.names@) =~= zip_view(old(self).ixs@, old(self).names@).push(
                val.view_pair(),
            ));
        }
    }

    /// The container of the values, in order.
    pub fn from_iter(vals: Vec<EnumVariant>) -> (r: Self)
        ensures
            r.wf(),
            r.view_seq() == vals@.map_values(|v: EnumVariant| v.view_pair()),
    {
        let mut r = EnumVariantContainer::new();
        let mut vals = vals;
        let total = vals.len();
        let ghost all = vals@;
        let mut taken: usize = 0;
        while vals.len() > 0
            invariant
                r.wf(),
                all.len() == total,
                taken + vals@.len() == all.len(),
                vals@ == all.subrange(taken as int, all.len() as int),
                r.view_seq() == all.subrange(0, taken as int).map_values(|v: EnumVariant| v.view_pair()),
            decreases vals@.len(),
        {
            let v = vals.remove(0);
            proof {
                assert(v == all[taken as int]);
                assert(all.subrange(0, taken + 1).map_values(|v: EnumVariant| v.view_pair()) =~= all.subrange(
                    0,
                    taken as int,
                ).map_values(|v: EnumVariant| v.view_pair()).push(v.view_pair()));
            }
            r.push_back(v);
            taken = taken + 1;
            proof {
                assert(vals@ =~= all.subrange(taken as int, all.len() as int));
            }
        }
        proof {
            assert(all.subrange(0, all.len() as int) =~= all);
        }
        r
    }

    pub fn clear(&mut self)
        ensures
            final(self).wf(),
            final(self).view_seq().len() == 0,
    {
        self.ixs.clear();
        self.names.clear();
    }

    /// The value at `pos`, where there is one.
    pub fn get_iter_ty_1(&self, pos: usize) -> (r: Option<EnumVariantRef<'_>>)
        requires
            self.wf(),
        ensures
            pos < self.view_seq().len() ==> (r matches Some(x) && (x.ix, x.name@) == self.view_seq()[pos as int]),
            pos >= self.view_seq().len() ==> r is None,
    {
        if pos < self.ixs.len() {
            Some(EnumVariantRef { ix: self.ixs[pos], name: self.names[pos].as_str() })
        } else {
            None
        }
    }

    /// The values, in order.
    pub fn into_iter_ty_2(self) -> (r: Vec<EnumVariant>)
        requires
            self.wf(),
        ensures
            r@.map_values(|v: EnumVariant| v.view_pair()) == self.view_seq(),
    {
        let ghost vs = self.view_seq();
        let mut ixs = self.ixs;
        let mut names = self.names;
        let ghost ix0 = ixs@;
        let ghost nm0 = names@;
        let mut r: Vec<EnumVariant> = Vec::new();
        let n = ixs.len();
        let mut k: usize = 0;
        while names.len() > 0
            invariant
                n == ix0.len(),
                ix0.len() == nm0.len(),
                vs == zip_view(ix0, nm0),
                k + names@.len() == n,
                names@ == nm0.subrange(k as int, n as int),
                ixs@ == ix0,
                r@.len() == k,
                forall|j: int| 0 <= j < k ==> (#[trigger] r@[j]).view_pair() == vs[j],
            decreases names@.len(),
        {
            let name = names.remove(0);
            let ix = ixs[k];
            proof {
                assert(name == nm0[k as int]);
            }
            r.push(EnumVariant { ix, name });
            k = k + 1;
            proof {
                assert(names@ =~= nm0.subrange(k as int, n as int));
            }
        }
        proof {
            assert(r@.map_values(|v: EnumVariant| v.view_pair()) =~= vs);
        }
        r
    }

    /// Moves the values at positions `beg..end` to the end of `dst`.
    pub fn drain_into(&mut self, dst: &mut Self, beg: usize, end: usize)
        requires
            old(self).wf(),
            old(dst).wf(),
            beg <= end <= old(self).view_seq().len(),
        ensures
            final(self).wf(),
            final(dst).wf(),
            final(dst).view_seq() == old(dst).view_seq() + old(self).view_seq().subrange(beg as int, end as int),
            final(self).view_seq() == old(self).view_seq().subrange(0, beg as int) + old(self).view_seq().subrange(
                end as int,
                old(self).view_seq().len() as int,
            ),
    {
        let ghost s0 = self.view_seq();
        let ghost d0 = dst.view_seq();
        let mut k: usize = beg;
        while k < end
            invariant
                beg <= k <= end,
                end <= s0.len(),
                self.wf(),
                dst.wf(),
                self.view_seq() == s0.subrange(0, beg as int) + s0.subrange(k as int, s0.len() as int),
                dst.view_seq() == d0 + s0.subrange(beg as int, k as int),
            decreases end - k,
        {
            let ghost before = self.view_seq();
            let ghost dbefore = dst.view_seq();
            proof {
                assert(before.len() == self.ixs@.len());
                assert(before.len() == beg + (s0.len() - k));
            }
            let ghost oi = self.ixs@;
            let ghost on = self.names@;
            let ghost di = dst.ixs@;
            let ghost dn = dst.names@;
            let ix = self.ixs.remove(beg);
            let name = self.names.remove(beg);
            proof {
                assert(before[beg as int] == s0[k as int]);
                assert((ix, name@) == before[beg as int]);
                lemma_zip_remove(oi, on, beg as int);
            }
            dst.ixs.push(ix);
            dst.names.push(name);
            proof {
                lemma_zip_push(di, dn, ix, name);
            }
            k = k + 1;
            proof {
                assert(self.view_seq() =~= s0.subrange(0, beg as int) + s0.subrange(k as int, s0.len() as int));
                assert(dst.view_seq() =~= d0 + s0.subrange(beg as int, k as int));
            }
        }
    }

    /// Keeps the last `len` values, where there are more.
    pub fn truncate_front(&mut self, len: usize)
        requires
            old(self).wf(),
        ensures
            final(self).wf(),
            old(self).view_seq().len() > len ==> final(self).view_seq() == old(self).view_seq().subrange(
                old(self).view_seq().len() - len,
                old(self).view_seq().len() as int,
            ),
            old(self).view_seq().len() <= len ==> final(self).view_seq() == old(self).view_seq(),
    {
        let n = self.ixs.len();
        if n > len {
            let mut tmp = EnumVariantContainer::new();
            self.drain_into(&mut tmp, 0, n - len);
        }
    }

    /// The first and the last index, where there are values.
    pub fn preview(&self) -> (r: (Option<i16>, Option<i16>))
        requires
            self.wf(),
        ensures
            self.view_seq().len() == 0 ==> r == (None::<i16>, None::<i16>),
            self.view_seq().len() > 0 ==> r == (Some(self.view_seq()[0].0), Some(self.view_seq().last().0)),
    {
        let n = self.ixs.len();
        if n == 0 {
            (None, None)
        } else {
            (Some(self.ixs[0]), Some(self.ixs[n - 1]))
        }
    }

    /// The estimate of the container's size in bytes.
    pub fn byte_estimate(&self) -> (r: u32)
        requires
            self.wf(),
            self.view_seq().len() * ENUM_VARIANT_BYTES <= u32::MAX,
        ensures
            r == self.view_seq().len() * ENUM_VARIANT_BYTES,
    {
        (self.ixs.len() as u32) * ENUM_VARIANT_BYTES
    }

    /// The fields as a user sees them: the indices, then the names.
    pub fn into_user_facing_fields(self) -> (r: (Vec<i16>, Vec<String>))
        requires
            self.wf(),
        ensures
            r.0@.len() == self.view_seq().len(),
            r.1@.len() == self.view_seq().len(),
            forall|i: int| 0 <= i < r.0@.len() ==> (#[trigger] r.0@[i], r.1@[i]@) == self.view_seq()[i],
    {
        (self.ixs, self.names)
    }
}

} // verus!
