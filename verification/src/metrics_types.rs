use vstd::prelude::*;

verus! {

/// The prometheus text of a list of counter lines: each line followed by a
/// newline.
pub open spec fn prom_text(lines: Seq<String>) -> Seq<char>
    decreases lines.len(),
{
    if lines.len() == 0 {
        Seq::empty()
    } else {
        prom_text(lines.drop_last()) + lines.last()@ + seq!['\n']
    }
}

/// The text of two lists one after the other is the text of the first
/// followed by the text of the second.
pub proof fn lemma_prom_text_concat(a: Seq<String>, b: Seq<String>)
    ensures
        prom_text(a + b) == prom_text(a) + prom_text(b),
    decreases b.len(),
{
    if b.len() == 0 {
        assert(a + b =~= a);
        assert(prom_text(b) =~= Seq::<char>::empty());
        assert(prom_text(a) + prom_text(b) =~= prom_text(a));
    } else {
        lemma_prom_text_concat(a, b.drop_last());
        assert((a + b).drop_last() =~= a + b.drop_last());
        assert((a + b).last() == b.last());
        assert(prom_text(a) + prom_text(b) =~= prom_text(a) + prom_text(b.drop_last()) + b.last()@ + seq!['\n']);
    }
}

/// Counter lines in the prometheus text format, already flattened.
#[derive(Debug)]
pub struct MetricsPrometheusShort {
    counters: Vec<String>,
}

impl MetricsPrometheusShort {
    pub closed spec fn lines(&self) -> Seq<String> {
        self.counters@
    }

    /// The prometheus text: every counter line followed by a newline.
    pub fn prometheus(&self) -> (r: String)
        ensures
            r@ == prom_text(self.lines()),
    {
        let mut s = String::new();
        let mut i: usize = 0;
        while i < self.counters.len()
            invariant
                0 <= i <= self.counters@.len(),
                s@ == prom_text(self.counters@.subrange(0, i as int)),
            decreases self.counters@.len() - i,
        {
            proof {
                assert(self.counters@.subrange(0, i + 1).drop_last() =~= self.counters@.subrange(0, i as int));
            }
            let ghost s0 = s@;
            s.append(self.counters[i].as_str());
            s.append("\n");
            proof {
                let sub = self.counters@.subrange(0, i + 1);
                assert(sub.last() == self.counters@[i as int]);
                reveal_strlit("\n");
                assert("\n"@ =~= seq!['\n']);
                assert(s@ =~= s0 + sub.last()@ + seq!['\n']);
            }
            i = i + 1;
        }
        proof {
            assert(self.counters@.subrange(0, i as int) =~= self.counters@);
        }
        s
    }

    pub fn from_flatten_prometheus(counters: Vec<String>) -> (r: Self)
        ensures
            r.lines() == counters@,
    {
        MetricsPrometheusShort { counters }
    }

    /// Appends the metrics of `inp` to those of `self`, so that a single
    /// scrape can carry the metrics of several sub systems.
    pub fn append(&mut self, inp: Self)
        ensures
            final(self).lines() == old(self).lines() + inp.lines(),
    {
        let mut inp = inp;
        self.counters.append(&mut inp.counters);
    }
}

/// A scrape of appended metrics shows the lines of both, the receiver's
/// first.
pub proof fn lemma_append_prometheus(a: MetricsPrometheusShort, b: MetricsPrometheusShort, c: MetricsPrometheusShort)
    requires
        c.lines() == a.lines() + b.lines(),
    ensures
        prom_text(c.lines()) == prom_text(a.lines()) + prom_text(b.lines()),
{
    lemma_prom_text_concat(a.lines(), b.lines());
}

} // verus!
