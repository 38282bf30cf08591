//! Process-wide request accounting: a counter of requests seen and a gauge of
//! requests currently held or forwarded, each keyed by host.  An external
//! exporter reads the same store through the getters.

use vstd::prelude::*;
use crate::text::str_eq;

verus! {

/// A counter raised by one, held at the numeric ceiling instead of wrapping.
pub open spec fn bump(v: u64) -> u64 {
    if v == u64::MAX {
        v
    } else {
        (v + 1) as u64
    }
}

/// A gauge lowered by one, held at zero so it can never go negative.
pub open spec fn drop_one(v: u64) -> u64 {
    if v == 0 {
        0u64
    } else {
        (v - 1) as u64
    }
}

struct MetricEntry {
    host: String,
    total: u64,
    active: u64,
}

/// The counter and gauge values for every host.  A host that was never
/// touched reads as zero on both.
pub struct MetricsRegistry {
    entries: Vec<MetricEntry>,
}

impl MetricsRegistry {
    spec fn totals_in(s: Seq<MetricEntry>, h: Seq<char>) -> u64
        decreases s.len(),
    {
        if s.len() == 0 {
            0u64
        } else if s[0].host@ == h {
            s[0].total
        } else {
            Self::totals_in(s.drop_first(), h)
        }
    }

    spec fn actives_in(s: Seq<MetricEntry>, h: Seq<char>) -> u64
        decreases s.len(),
    {
        if s.len() == 0 {
            0u64
        } else if s[0].host@ == h {
            s[0].active
        } else {
            Self::actives_in(s.drop_first(), h)
        }
    }

    /// The `requests_total` counter for one host.
    pub closed spec fn total_of(self, h: Seq<char>) -> u64 {
        Self::totals_in(self.entries@, h)
    }

    /// The `active_requests` gauge for one host.
    pub closed spec fn active_of(self, h: Seq<char>) -> u64 {
        Self::actives_in(self.entries@, h)
    }

    proof fn lemma_absent(s: Seq<MetricEntry>, h: Seq<char>)
        requires
            forall|j: int| 0 <= j < s.len() ==> s[j].host@ != h,
        ensures
            Self::totals_in(s, h) == 0,
            Self::actives_in(s, h) == 0,
        decreases s.len(),
    {
        if s.len() != 0 {
            assert(forall|j: int|
                0 <= j < s.drop_first().len() ==> s.drop_first()[j] == s[j + 1]);
            Self::lemma_absent(s.drop_first(), h);
        }
    }

    proof fn lemma_found(s: Seq<MetricEntry>, i: int)
        requires
            0 <= i < s.len(),
            forall|j: int| 0 <= j < i ==> s[j].host@ != s[i].host@,
        ensures
            Self::totals_in(s, s[i].host@) == s[i].total,
            Self::actives_in(s, s[i].host@) == s[i].active,
        decreases i,
    {
        if i > 0 {
            let sub = s.drop_first();
            assert(forall|j: int| 0 <= j < sub.len() ==> sub[j] == s[j + 1]);
            assert(sub[i - 1] == s[i]);
            Self::lemma_found(sub, i - 1);
        }
    }

    proof fn lemma_replace(s: Seq<MetricEntry>, i: int, e: MetricEntry)
        requires
            0 <= i < s.len(),
            e.host@ == s[i].host@,
            forall|j: int| 0 <= j < i ==> s[j].host@ != s[i].host@,
        ensures
            Self::totals_in(s.update(i, e), s[i].host@) == e.total,
            Self::actives_in(s.update(i, e), s[i].host@) == e.active,
            forall|h: Seq<char>|
                h != s[i].host@ ==> Self::totals_in(s.update(i, e), h) == Self::totals_in(s, h),
            forall|h: Seq<char>|
                h != s[i].host@ ==> Self::actives_in(s.update(i, e), h) == Self::actives_in(s, h),
        decreases i,
    {
        let t = s.update(i, e);
        if i == 0 {
            assert(t[0] == e);
            assert(t.drop_first() =~= s.drop_first());
            assert forall|h: Seq<char>|
                h != s[i].host@ implies Self::totals_in(t, h) == Self::totals_in(s, h)
                    && Self::actives_in(t, h) == Self::actives_in(s, h) by {
                assert(Self::totals_in(t, h) == Self::totals_in(t.drop_first(), h));
                assert(Self::totals_in(s, h) == Self::totals_in(s.drop_first(), h));
                assert(Self::actives_in(t, h) == Self::actives_in(t.drop_first(), h));
                assert(Self::actives_in(s, h) == Self::actives_in(s.drop_first(), h));
            }
        } else {
            let sub = s.drop_first();
            assert(forall|j: int| 0 <= j < sub.len() ==> sub[j] == s[j + 1]);
            assert(sub[i - 1] == s[i]);
            assert(t[0] == s[0]);
            assert(t.drop_first() =~= sub.update(i - 1, e));
            Self::lemma_replace(sub, i - 1, e);
            assert(Self::totals_in(t, s[i].host@) == Self::totals_in(t.drop_first(), s[i].host@));
            assert(Self::actives_in(t, s[i].host@) == Self::actives_in(
                t.drop_first(),
                s[i].host@,
            ));
            assert forall|h: Seq<char>|
                h != s[i].host@ implies Self::totals_in(t, h) == Self::totals_in(s, h)
                    && Self::actives_in(t, h) == Self::actives_in(s, h) by {
                if h == s[0].host@ {
                    assert(Self::totals_in(t, h) == t[0].total);
                    assert(Self::totals_in(s, h) == s[0].total);
                    assert(Self::actives_in(t, h) == t[0].active);
                    assert(Self::actives_in(s, h) == s[0].active);
                } else {
                    assert(Self::totals_in(t, h) == Self::totals_in(t.drop_first(), h));
                    assert(Self::totals_in(s, h) == Self::totals_in(sub, h));
                    assert(Self::actives_in(t, h) == Self::actives_in(t.drop_first(), h));
                    assert(Self::actives_in(s, h) == Self::actives_in(sub, h));
                }
            }
        }
    }

    proof fn lemma_append(s: Seq<MetricEntry>, e: MetricEntry)
        requires
            forall|j: int| 0 <= j < s.len() ==> s[j].host@ != e.host@,
        ensures
            Self::totals_in(s.push(e), e.host@) == e.total,
            Self::actives_in(s.push(e), e.host@) == e.active,
            forall|h: Seq<char>|
                h != e.host@ ==> Self::totals_in(s.push(e), h) == Self::totals_in(s, h),
            forall|h: Seq<char>|
                h != e.host@ ==> Self::actives_in(s.push(e), h) == Self::actives_in(s, h),
        decreases s.len(),
    {
        let t = s.push(e);
        if s.len() == 0 {
            assert(t[0] == e);
            assert(t.drop_first() =~= Seq::<MetricEntry>::empty());
            assert forall|h: Seq<char>|
                h != e.host@ implies Self::totals_in(t, h) == Self::totals_in(s, h)
                    && Self::actives_in(t, h) == Self::actives_in(s, h) by {
                assert(Self::totals_in(t, h) == Self::totals_in(t.drop_first(), h));
                assert(Self::actives_in(t, h) == Self::actives_in(t.drop_first(), h));
            }
        } else {
            let sub = s.drop_first();
            assert(forall|j: int| 0 <= j < sub.len() ==> sub[j] == s[j + 1]);
            assert(t[0] == s[0]);
            assert(t.drop_first() =~= sub.push(e));
            Self::lemma_append(sub, e);
            assert(Self::totals_in(t, e.host@) == Self::totals_in(t.drop_first(), e.host@));
            assert(Self::actives_in(t, e.host@) == Self::actives_in(t.drop_first(), e.host@));
            assert forall|h: Seq<char>|
                h != e.host@ implies Self::totals_in(t, h) == Self::totals_in(s, h)
                    && Self::actives_in(t, h) == Self::actives_in(s, h) by {
                if h == s[0].host@ {
                    assert(Self::totals_in(t, h) == t[0].total);
                    assert(Self::totals_in(s, h) == s[0].total);
                    assert(Self::actives_in(t, h) == t[0].active);
                    assert(Self::actives_in(s, h) == s[0].active);
                } else {
                    assert(Self::totals_in(t, h) == Self::totals_in(t.drop_first(), h));
                    assert(Self::totals_in(s, h) == Self::totals_in(sub, h));
                    assert(Self::actives_in(t, h) == Self::actives_in(t.drop_first(), h));
                    assert(Self::actives_in(s, h) == Self::actives_in(sub, h));
                }
            }
        }
    }

    fn position_of(entries: &Vec<MetricEntry>, host: &str) -> (r: Option<usize>)
        ensures
            match r {
                Some(i) => i < entries@.len() && entries@[i as int].host@ == host@ && (forall|
                    j: int,
                |
                    0 <= j < i ==> entries@[j].host@ != host@),
                None => forall|j: int| 0 <= j < entries@.len() ==> entries@[j].host@ != host@,
            },
    {
        let n = entries.len();
        let mut i: usize = 0;
        while i < n
            invariant
                n == entries@.len(),
                i <= n,
                forall|j: int| 0 <= j < i ==> entries@[j].host@ != host@,
            decreases n - i,
        {
            if str_eq(entries[i].host.as_str(), host) {
                return Some(i);
            }
            i += 1;
        }
        None
    }

    /// A registry with every counter and gauge at zero.
    pub fn new() -> (r: MetricsRegistry)
        ensures
            forall|h: Seq<char>| r.total_of(h) == 0,
            forall|h: Seq<char>| r.active_of(h) == 0,
    {
        MetricsRegistry { entries: Vec::new() }
    }

    /// Raise `requests_total` for one host by one; every other counter and
    /// every gauge keeps its value.
    pub fn inc_total(&mut self, host: &str)
        ensures
            inc_total_rel(*old(self), *final(self), host@),
    {
        match Self::position_of(&self.entries, host) {
            Some(i) => {
                let t = self.entries[i].total;
                let nt = if t == u64::MAX {
                    t
                } else {
                    t + 1
                };
                self.entries[i].total = nt;
                proof {
                    Self::lemma_found(old(self).entries@, i as int);
                    Self::lemma_replace(old(self).entries@, i as int, self.entries@[i as int]);
                }
            },
            None => {
                let e = MetricEntry { host: host.to_owned(), total: 1, active: 0 };
                self.entries.push(e);
                proof {
                    Self::lemma_absent(old(self).entries@, host@);
                    Self::lemma_append(old(self).entries@, self.entries@.last());
                }
            },
        }
    }

    /// Raise `active_requests` for one host by one; every other gauge and
    /// every counter keeps its value.
    pub fn inc_active(&mut self, host: &str)
        ensures
            inc_active_rel(*old(self), *final(self), host@),
    {
        match Self::position_of(&self.entries, host) {
            Some(i) => {
                let a = self.entries[i].active;
                let na = if a == u64::MAX {
                    a
                } else {
                    a + 1
                };
                self.entries[i].active = na;
                proof {
                    Self::lemma_found(old(self).entries@, i as int);
                    Self::lemma_replace(old(self).entries@, i as int, self.entries@[i as int]);
                }
            },
            None => {
                let e = MetricEntry { host: host.to_owned(), total: 0, active: 1 };
                self.entries.push(e);
                proof {
                    Self::lemma_absent(old(self).entries@, host@);
                    Self::lemma_append(old(self).entries@, self.entries@.last());
                }
            },
        }
    }

    /// Lower `active_requests` for one host by one, never below zero; every
    /// other gauge and every counter keeps its value.
    pub fn dec_active(&mut self, host: &str)
        ensures
            dec_active_rel(*old(self), *final(self), host@),
    {
        match Self::position_of(&self.entries, host) {
            Some(i) => {
                let a = self.entries[i].active;
                let na = if a == 0 {
                    a
                } else {
                    a - 1
                };
                self.entries[i].active = na;
                proof {
                    Self::lemma_found(old(self).entries@, i as int);
                    Self::lemma_replace(old(self).entries@, i as int, self.entries@[i as int]);
                }
            },
            None => {
                proof {
                    Self::lemma_absent(self.entries@, host@);
                }
            },
        }
    }

    /// Read `requests_total` for one host, as the exporter does.
    pub fn get_total(&self, host: &str) -> (r: u64)
        ensures
            r == self.total_of(host@),
    {
        match Self::position_of(&self.entries, host) {
            Some(i) => {
                proof {
                    Self::lemma_found(self.entries@, i as int);
                }
                self.entries[i].total
            },
            None => {
                proof {
                    Self::lemma_absent(self.entries@, host@);
                }
                0
            },
        }
    }

    /// Read `active_requests` for one host, as the exporter does.
    pub fn get_active(&self, host: &str) -> (r: u64)
        ensures
            r == self.active_of(host@),
    {
        match Self::position_of(&self.entries, host) {
            Some(i) => {
                proof {
                    Self::lemma_found(self.entries@, i as int);
                }
                self.entries[i].active
            },
            None => {
                proof {
                    Self::lemma_absent(self.entries@, host@);
                }
                0
            },
        }
    }
}

/// One `inc_total(h)` call: the counter at `h` bumped, all else untouched.
pub open spec fn inc_total_rel(pre: MetricsRegistry, post: MetricsRegistry, h: Seq<char>) -> bool {
    &&& post.total_of(h) == bump(pre.total_of(h))
    &&& forall|x: Seq<char>| x != h ==> post.total_of(x) == pre.total_of(x)
    &&& forall|x: Seq<char>| post.active_of(x) == pre.active_of(x)
}

/// One `inc_active(h)` call: the gauge at `h` bumped, all else untouched.
pub open spec fn inc_active_rel(pre: MetricsRegistry, post: MetricsRegistry, h: Seq<char>) -> bool {
    &&& post.active_of(h) == bump(pre.active_of(h))
    &&& forall|x: Seq<char>| x != h ==> post.active_of(x) == pre.active_of(x)
    &&& forall|x: Seq<char>| post.total_of(x) == pre.total_of(x)
}

/// One `dec_active(h)` call: the gauge at `h` lowered, all else untouched.
pub open spec fn dec_active_rel(pre: MetricsRegistry, post: MetricsRegistry, h: Seq<char>) -> bool {
    &&& post.active_of(h) == drop_one(pre.active_of(h))
    &&& forall|x: Seq<char>| x != h ==> post.active_of(x) == pre.active_of(x)
    &&& forall|x: Seq<char>| post.total_of(x) == pre.total_of(x)
}

/// No counter and no gauge moved.
pub open spec fn counts_unchanged(pre: MetricsRegistry, post: MetricsRegistry) -> bool {
    &&& forall|x: Seq<char>| post.total_of(x) == pre.total_of(x)
    &&& forall|x: Seq<char>| post.active_of(x) == pre.active_of(x)
}

} // verus!
