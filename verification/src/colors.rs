//! The sparse per-character color annotation: a mapping from absolute
//! character offsets to small color identifiers. Most characters carry no
//! entry. On edits the keys are shifted exactly, so a color stays attached to
//! the same character: inserting `n` characters at offset `o` shifts every key
//! `>= o` up by `n`; deleting `[o, o+n)` drops the keys inside and shifts
//! every key `>= o+n` down by `n`.
use vstd::map::*;
use vstd::prelude::*;

verus! {

/// A small color identifier; `None` in queries means "no color".
pub type ColorId = u8;

/// The mapping an entry list denotes: each `(offset, color)` pair in order.
pub open spec fn entries_map(es: Seq<(usize, ColorId)>) -> Map<int, ColorId>
    decreases es.len(),
{
    if es.len() == 0 {
        Map::empty()
    } else {
        entries_map(es.drop_last()).insert(es.last().0 as int, es.last().1)
    }
}

/// No offset occurs twice in the entry list.
pub open spec fn distinct_keys(es: Seq<(usize, ColorId)>) -> bool {
    forall|i: int, j: int|
        0 <= i < j < es.len() ==> (#[trigger] es[i]).0 != (#[trigger] es[j]).0
}

/// The mapping after an insertion of `n` characters at offset `at`.
pub open spec fn shift_up_map(m: Map<int, ColorId>, at: int, n: int) -> Map<int, ColorId> {
    Map::new(
        |k: int| k < at && m.dom().contains(k) || k >= at + n && m.dom().contains(k - n),
        |k: int|
            if k < at {
                m[k]
            } else {
                m[k - n]
            },
    )
}

/// The mapping after a deletion of the `n` characters in `[at, at + n)`.
pub open spec fn shift_down_map(m: Map<int, ColorId>, at: int, n: int) -> Map<int, ColorId> {
    Map::new(
        |k: int| k < at && m.dom().contains(k) || k >= at && m.dom().contains(k + n),
        |k: int|
            if k < at {
                m[k]
            } else {
                m[k + n]
            },
    )
}

proof fn lemma_distinct_drop_last(es: Seq<(usize, ColorId)>)
    requires
        distinct_keys(es),
        es.len() > 0,
    ensures
        distinct_keys(es.drop_last()),
{
    let dl = es.drop_last();
    assert forall|i: int, j: int|
        0 <= i < j < dl.len() implies (#[trigger] dl[i]).0 != (#[trigger] dl[j]).0 by {
        assert(es[i] == dl[i] && es[j] == dl[j]);
    }
}

/// A key in the denoted mapping has a witness entry; returns its position.
pub proof fn lemma_key_index(es: Seq<(usize, ColorId)>, k: int) -> (i: int)
    requires
        distinct_keys(es),
        entries_map(es).dom().contains(k),
    ensures
        0 <= i < es.len(),
        es[i].0 == k,
        entries_map(es)[k] == es[i].1,
    decreases es.len(),
{
    lemma_distinct_drop_last(es);
    let dl = es.drop_last();
    if es.last().0 as int == k {
        es.len() - 1
    } else {
        let i = lemma_key_index(dl, k);
        assert(es[i] == dl[i]);
        i
    }
}

/// Each entry is present in the denoted mapping with its own color.
pub proof fn lemma_index_key(es: Seq<(usize, ColorId)>, i: int)
    requires
        distinct_keys(es),
        0 <= i < es.len(),
    ensures
        entries_map(es).dom().contains(es[i].0 as int),
        entries_map(es)[es[i].0 as int] == es[i].1,
    decreases es.len(),
{
    lemma_distinct_drop_last(es);
    let dl = es.drop_last();
    if i < es.len() - 1 {
        lemma_index_key(dl, i);
        assert(es[i] == dl[i]);
        assert(es[i].0 != es[es.len() - 1].0);
    }
}

/// A key occurring in no entry is absent from the denoted mapping.
pub proof fn lemma_no_key(es: Seq<(usize, ColorId)>, k: int)
    requires
        forall|i: int| 0 <= i < es.len() ==> (#[trigger] es[i]).0 != k,
    ensures
        !entries_map(es).dom().contains(k),
    decreases es.len(),
{
    if es.len() > 0 {
        let dl = es.drop_last();
        assert(forall|i: int| 0 <= i < dl.len() ==> (#[trigger] dl[i]).0 == es[i].0);
        lemma_no_key(dl, k);
        assert(es[es.len() - 1].0 != k);
    }
}

/// The sparse color index: a list of `(offset, color)` entries with distinct
/// offsets, denoting the mapping `entries_map`.
pub struct ColorIndex {
    entries: Vec<(usize, ColorId)>,
}

impl View for ColorIndex {
    type V = Map<int, ColorId>;

    closed spec fn view(&self) -> Map<int, ColorId> {
        entries_map(self.entries@)
    }
}

impl ColorIndex {
    pub closed spec fn wf(&self) -> bool {
        distinct_keys(self.entries@)
    }

    pub fn new() -> (r: ColorIndex)
        ensures
            r.wf(),
            r@ == Map::<int, ColorId>::empty(),
    {
        ColorIndex { entries: Vec::new() }
    }

    pub fn get(&self, k: usize) -> (r: Option<ColorId>)
        requires
            self.wf(),
        ensures
            self@.dom().contains(k as int) ==> r == Some(self@[k as int]),
            !self@.dom().contains(k as int) ==> r is None,
    {
        let n = self.entries.len();
        let mut i: usize = 0;
        while i < n
            invariant
                self.wf(),
                n == self.entries.len(),
                i <= n,
                forall|j: int| 0 <= j < i ==> (#[trigger] self.entries@[j]).0 != k,
            decreases n - i,
        {
            if self.entries[i].0 == k {
                proof {
                    lemma_index_key(self.entries@, i as int);
                }
                return Some(self.entries[i].1);
            }
            i += 1;
        }
        proof {
            lemma_no_key(self.entries@, k as int);
        }
        None
    }

    /// Record color `v` for offset `k`, replacing any previous entry.
    pub fn set(&mut self, k: usize, v: ColorId)
        requires
            old(self).wf(),
        ensures
            final (self).wf(),
            final (self)@ == old(self)@.insert(k as int, v),
    {
        let ghost es0 = self.entries@;
        let n = self.entries.len();
        let mut out: Vec<(usize, ColorId)> = Vec::new();
        let mut found = false;
        let mut i: usize = 0;
        while i < n
            invariant
                distinct_keys(es0),
                n == self.entries.len(),
                es0 == self.entries@,
                i <= n,
                out@.len() == i,
                forall|j: int|
                    0 <= j < i ==> #[trigger] out@[j] == (if es0[j].0 == k {
                        (k, v)
                    } else {
                        es0[j]
                    }),
                found <==> exists|j: int| 0 <= j < i && (#[trigger] es0[j]).0 == k,
            decreases n - i,
        {
            let (k0, v0) = self.entries[i];
            if k0 == k {
                out.push((k, v));
                found = true;
                proof {
                    assert(es0[i as int].0 == k);
                }
            } else {
                out.push((k0, v0));
            }
            i += 1;
        }
        let ghost fidx: int = if found {
            choose|j: int| 0 <= j < es0.len() && (#[trigger] es0[j]).0 == k
        } else {
            es0.len() as int
        };
        if !found {
            out.push((k, v));
        }
        let ghost es1 = out@;
        proof {
            assert(es1[fidx] == (k, v));
            assert(distinct_keys(es1)) by {
                assert forall|a: int, b: int|
                    0 <= a < b < es1.len() implies (#[trigger] es1[a]).0 != (#[trigger] es1[b]).0 by {
                    if b < es0.len() {
                        assert(es1[a] == (if es0[a].0 == k { (k, v) } else { es0[a] }));
                        assert(es1[b] == (if es0[b].0 == k { (k, v) } else { es0[b] }));
                    } else {
                        assert(es1[a] == (if es0[a].0 == k { (k, v) } else { es0[a] }));
                        assert(es0[a].0 != k);
                    }
                }
            }
        }
        self.entries = out;
        proof {
            assert_maps_equal!(entries_map(es1), entries_map(es0).insert(k as int, v), kk => {
                if kk == k as int {
                    lemma_index_key(es1, fidx);
                } else {
                    if entries_map(es1).dom().contains(kk) {
                        let j = lemma_key_index(es1, kk);
                        assert(es1[j] == (if es0[j].0 == k { (k, v) } else { es0[j] }));
                        assert(es1[j] == es0[j]);
                        lemma_index_key(es0, j);
                    }
                    if entries_map(es0).dom().contains(kk) {
                        let j = lemma_key_index(es0, kk);
                        assert(es1[j] == (if es0[j].0 == k { (k, v) } else { es0[j] }));
                        assert(es1[j] == es0[j]);
                        lemma_index_key(es1, j);
                    }
                }
            });
        }
    }

    /// Drop any entry for offset `k`.
    pub fn unset(&mut self, k: usize)
        requires
            old(self).wf(),
        ensures
            final (self).wf(),
            final (self)@ == old(self)@.remove(k as int),
    {
        let ghost es0 = self.entries@;
        let n = self.entries.len();
        let mut i: usize = 0;
        while i < n
            invariant
                distinct_keys(es0),
                n == self.entries.len(),
                es0 == self.entries@,
                old(self)@ == entries_map(es0),
                i <= n,
                forall|j: int| 0 <= j < i ==> (#[trigger] es0[j]).0 != k,
            decreases n - i,
        {
            if self.entries[i].0 == k {
                proof {
                    assert(es0[i as int].0 == k);
                    es0.remove_ensures(i as int);
                }
                self.entries.remove(i);
                proof {
                    let es1 = self.entries@;
                    assert(es1 == es0.remove(i as int));
                    assert(distinct_keys(es1)) by {
                        assert forall|a: int, b: int|
                            0 <= a < b < es1.len() implies (#[trigger] es1[a]).0 != (
                        #[trigger] es1[b]).0 by {
                            let a0: int = if a < i { a } else { a + 1 };
                            let b0: int = if b < i { b } else { b + 1 };
                            assert(es1[a] == es0[a0] && es1[b] == es0[b0]);
                        }
                    }
                    assert_maps_equal!(entries_map(es1), entries_map(es0).remove(k as int), kk => {
                        if entries_map(es1).dom().contains(kk) {
                            let j = lemma_key_index(es1, kk);
                            let j0: int = if j < i { j } else { j + 1 };
                            assert(es1[j] == es0[j0]);
                            lemma_index_key(es0, j0);
                        }
                        if kk != k as int && entries_map(es0).dom().contains(kk) {
                            let j0 = lemma_key_index(es0, kk);
                            assert(j0 != i);
                            let j: int = if j0 < i { j0 } else { j0 - 1 };
                            assert(es1[j] == es0[j0]);
                            lemma_index_key(es1, j);
                        }
                    });
                    assert(entries_map(self.entries@) == entries_map(es0).remove(k as int));
                }
                return ;
            }
            i += 1;
        }
        proof {
            lemma_no_key(es0, k as int);
            assert(entries_map(es0) =~= entries_map(es0).remove(k as int));
        }
    }

    /// Shift every entry at offset `at` or later up by `n`, after an
    /// insertion of `n` characters at offset `at`.
    pub fn shift_up(&mut self, at: usize, n: usize)
        requires
            old(self).wf(),
            forall|k: int| old(self)@.dom().contains(k) ==> k + n <= usize::MAX,
        ensures
            final (self).wf(),
            final (self)@ == shift_up_map(old(self)@, at as int, n as int),
    {
        let ghost es0 = self.entries@;
        proof {
            assert(es0 == old(self).entries@);
            assert(entries_map(es0) == old(self)@);
            assert forall|j: int| 0 <= j < es0.len() implies (#[trigger] es0[j]).0 + n
                <= usize::MAX by {
                lemma_index_key(es0, j);
                assert(entries_map(es0).dom().contains(es0[j].0 as int));
                assert(old(self)@.dom().contains(es0[j].0 as int));
            }
        }
        let cnt = self.entries.len();
        let mut out: Vec<(usize, ColorId)> = Vec::new();
        let mut i: usize = 0;
        while i < cnt
            invariant
                distinct_keys(es0),
                cnt == self.entries.len(),
                es0 == self.entries@,
                forall|j: int| 0 <= j < es0.len() ==> (#[trigger] es0[j]).0 + n <= usize::MAX,
                i <= cnt,
                out@.len() == i,
                forall|j: int|
                    0 <= j < i ==> #[trigger] out@[j] == (if es0[j].0 < at {
                        es0[j]
                    } else {
                        ((es0[j].0 + n) as usize, es0[j].1)
                    }),
            decreases cnt - i,
        {
            let (k0, v0) = self.entries[i];
            if k0 < at {
                out.push((k0, v0));
            } else {
                out.push((k0 + n, v0));
            }
            i += 1;
        }
        let ghost es1 = out@;
        proof {
            assert(distinct_keys(es1)) by {
                assert forall|a: int, b: int|
                    0 <= a < b < es1.len() implies (#[trigger] es1[a]).0 != (#[trigger] es1[b]).0 by {
                    assert(es1[a] == (if es0[a].0 < at {
                        es0[a]
                    } else {
                        ((es0[a].0 + n) as usize, es0[a].1)
                    }));
                    assert(es1[b] == (if es0[b].0 < at {
                        es0[b]
                    } else {
                        ((es0[b].0 + n) as usize, es0[b].1)
                    }));
                }
            }
        }
        self.entries = out;
        proof {
            assert_maps_equal!(entries_map(es1), shift_up_map(entries_map(es0), at as int, n as int), kk => {
                if entries_map(es1).dom().contains(kk) {
                    let j = lemma_key_index(es1, kk);
                    assert(es1[j] == (if es0[j].0 < at {
                        es0[j]
                    } else {
                        ((es0[j].0 + n) as usize, es0[j].1)
                    }));
                    lemma_index_key(es0, j);
                }
                if kk < at as int && entries_map(es0).dom().contains(kk) {
                    let j = lemma_key_index(es0, kk);
                    assert(es1[j] == es0[j]);
                    lemma_index_key(es1, j);
                }
                if kk >= at + n && entries_map(es0).dom().contains(kk - n) {
                    let j = lemma_key_index(es0, kk - n);
                    assert(es1[j] == ((es0[j].0 + n) as usize, es0[j].1));
                    lemma_index_key(es1, j);
                }
            });
        }
    }

    /// Drop every entry in `[at, at + n)` and shift entries at `at + n` or
    /// later down by `n`, after a deletion of the characters in `[at, at + n)`.
    pub fn shift_down(&mut self, at: usize, n: usize)
        requires
            old(self).wf(),
        ensures
            final (self).wf(),
            final (self)@ == shift_down_map(old(self)@, at as int, n as int),
    {
        let ghost m0 = self@;
        proof {
            assert forall|k: int| m0.dom().contains(k) implies 0 <= k <= usize::MAX by {
                let j = lemma_key_index(self.entries@, k);
            }
        }
        // first pass: drop the entries inside the deleted range; offsets past
        // the address range cannot occur, so the walk may stop there
        let lim: usize = usize::MAX - at;
        let mut d: usize = 0;
        while d < n && d <= lim
            invariant
                self.wf(),
                self@ == Map::<int, ColorId>::new(
                    |k: int| m0.dom().contains(k) && !(at <= k < at + d),
                    |k: int| m0[k],
                ),
                forall|k: int| m0.dom().contains(k) ==> 0 <= k <= usize::MAX,
                d <= n,
                lim == usize::MAX - at,
            decreases n - d,
        {
            self.unset(at + d);
            proof {
                assert(self@ =~= Map::<int, ColorId>::new(
                    |k: int| m0.dom().contains(k) && !(at <= k < at + d + 1),
                    |k: int| m0[k],
                ));
            }
            d += 1;
        }
        proof {
            assert(self@ =~= Map::<int, ColorId>::new(
                |k: int| m0.dom().contains(k) && !(at <= k < at + n),
                |k: int| m0[k],
            ));
        }
        let ghost es0 = self.entries@;
        proof {
            assert forall|j: int| 0 <= j < es0.len() implies (#[trigger] es0[j]).0 < at || (
            #[trigger] es0[j]).0 >= at + n by {
                lemma_index_key(es0, j);
            }
        }
        // second pass: shift the surviving later entries down
        let cnt = self.entries.len();
        let mut out: Vec<(usize, ColorId)> = Vec::new();
        let mut i: usize = 0;
        while i < cnt
            invariant
                distinct_keys(es0),
                cnt == self.entries.len(),
                es0 == self.entries@,
                forall|j: int|
                    0 <= j < es0.len() ==> (#[trigger] es0[j]).0 < at || (#[trigger] es0[j]).0
                        >= at + n,
                i <= cnt,
                out@.len() == i,
                forall|j: int|
                    0 <= j < i ==> #[trigger] out@[j] == (if es0[j].0 < at {
                        es0[j]
                    } else {
                        ((es0[j].0 - n) as usize, es0[j].1)
                    }),
            decreases cnt - i,
        {
            let (k0, v0) = self.entries[i];
            if k0 < at {
                out.push((k0, v0));
            } else {
                out.push((k0 - n, v0));
            }
            i += 1;
        }
        let ghost es1 = out@;
        let ghost m1 = entries_map(es0);
        proof {
            assert(distinct_keys(es1)) by {
                assert forall|a: int, b: int|
                    0 <= a < b < es1.len() implies (#[trigger] es1[a]).0 != (#[trigger] es1[b]).0 by {
                    assert(es1[a] == (if es0[a].0 < at {
                        es0[a]
                    } else {
                        ((es0[a].0 - n) as usize, es0[a].1)
                    }));
                    assert(es1[b] == (if es0[b].0 < at {
                        es0[b]
                    } else {
                        ((es0[b].0 - n) as usize, es0[b].1)
                    }));
                }
            }
        }
        self.entries = out;
        proof {
            assert_maps_equal!(entries_map(es1), shift_down_map(m0, at as int, n as int), kk => {
                if entries_map(es1).dom().contains(kk) {
                    let j = lemma_key_index(es1, kk);
                    assert(es1[j] == (if es0[j].0 < at {
                        es0[j]
                    } else {
                        ((es0[j].0 - n) as usize, es0[j].1)
                    }));
                    lemma_index_key(es0, j);
                    assert(m1.dom().contains(es0[j].0 as int));
                }
                if kk < at as int && m0.dom().contains(kk) {
                    assert(m1.dom().contains(kk));
                    let j = lemma_key_index(es0, kk);
                    assert(es1[j] == es0[j]);
                    lemma_index_key(es1, j);
                }
                if kk >= at as int && m0.dom().contains(kk + n) {
                    assert(m1.dom().contains(kk + n));
                    let j = lemma_key_index(es0, kk + n);
                    assert(es1[j] == ((es0[j].0 - n) as usize, es0[j].1));
                    lemma_index_key(es1, j);
                }
            });
        }
    }

    /// The entries as a plain list of `(offset, color)` pairs.
    pub fn pairs(&self) -> (r: Vec<(usize, ColorId)>)
        requires
            self.wf(),
        ensures
            distinct_keys(r@),
            entries_map(r@) == self@,
    {
        let cnt = self.entries.len();
        let mut out: Vec<(usize, ColorId)> = Vec::new();
        let mut i: usize = 0;
        while i < cnt
            invariant
                cnt == self.entries.len(),
                i <= cnt,
                out@ == self.entries@.take(i as int),
            decreases cnt - i,
        {
            let (k0, v0) = self.entries[i];
            out.push((k0, v0));
            proof {
                assert(out@ =~= self.entries@.take(i + 1));
            }
            i += 1;
        }
        proof {
            assert(out@ =~= self.entries@);
        }
        out
    }
}

} // verus!
