//! Hits and misses per expected character, and the weakest keys.
use std::collections::HashMap;
use vstd::prelude::*;

verus! {

/// Whether a key has enough attempts, and any miss, to be judged.
pub open spec fn eligible(hits: u32, misses: u32) -> bool {
    misses > 0 && hits + misses >= 2
}

/// Whether the accuracy `ha / (ha + ma)` is at most `hb / (hb + mb)`.
pub open spec fn accuracy_le(ha: u32, ma: u32, hb: u32, mb: u32) -> bool {
    ha * (hb + mb) <= hb * (ha + ma)
}

/// Accuracy comparison is total.
proof fn lemma_accuracy_total(ha: u32, ma: u32, hb: u32, mb: u32)
    ensures
        accuracy_le(ha, ma, hb, mb) || accuracy_le(hb, mb, ha, ma),
{
}

/// Accuracy comparison is transitive (for keys with attempts).
proof fn lemma_accuracy_trans(ha: u32, ma: u32, hb: u32, mb: u32, hc: u32, mc: u32)
    requires
        hb + mb > 0,
        accuracy_le(ha, ma, hb, mb),
        accuracy_le(hb, mb, hc, mc),
    ensures
        accuracy_le(ha, ma, hc, mc),
{
    let ta = ha + ma;
    let tb = hb + mb;
    let tc = hc + mc;
    assert(ha * tb <= hb * ta);
    assert(hb * tc <= hc * tb);
    assert(ha * tb * tc <= hb * ta * tc) by (nonlinear_arith)
        requires
            ha * tb <= hb * ta,
            tc >= 0,
    ;
    assert(hb * tc * ta <= hc * tb * ta) by (nonlinear_arith)
        requires
            hb * tc <= hc * tb,
            ta >= 0,
    ;
    assert(ha * tc <= hc * ta) by (nonlinear_arith)
        requires
            ha * tb * tc <= hb * ta * tc,
            hb * tc * ta <= hc * tb * ta,
            tb > 0,
    ;
}

/// A count times the attempts of another key fits in a `u64`.
proof fn lemma_product_fits(h: u32, hb: u32, mb: u32)
    requires
        hb + mb <= u32::MAX,
    ensures
        (h as u64) * ((hb as u64) + (mb as u64)) <= u64::MAX,
{
    assert((h as int) * ((hb as int) + (mb as int)) <= (u32::MAX as int) * (u32::MAX as int)) by (nonlinear_arith)
        requires
            0 <= h <= u32::MAX,
            0 <= (hb as int) + (mb as int) <= u32::MAX,
    ;
}

/// The entry of key `c` in a list of per-key counts.
pub open spec fn has_key(s: Seq<(char, u32, u32)>, c: char) -> bool {
    exists|i: int| 0 <= i < s.len() && s[i].0 == c
}

/// No key appears twice.
pub open spec fn keys_unique(s: Seq<(char, u32, u32)>) -> bool {
    forall|i: int, j: int| 0 <= i < s.len() && 0 <= j < s.len() && s[i].0 == s[j].0 ==> i == j
}

/// The map from key to (hits, misses) that a list of unique entries holds.
pub open spec fn entries_view(s: Seq<(char, u32, u32)>) -> Map<char, (u32, u32)> {
    Map::new(
        |c: char| has_key(s, c),
        |c: char|
            {
                let i = choose|i: int| 0 <= i < s.len() && s[i].0 == c;
                (s[i].1, s[i].2)
            },
    )
}

proof fn lemma_entries_view_at(s: Seq<(char, u32, u32)>, i: int)
    requires
        keys_unique(s),
        0 <= i < s.len(),
    ensures
        entries_view(s).dom().contains(s[i].0),
        entries_view(s)[s[i].0] == (s[i].1, s[i].2),
{
    assert(has_key(s, s[i].0));
}

/// The sum of `f` over a finite set of keys.
pub open spec fn sum_over(keys: Set<char>, f: spec_fn(char) -> int) -> int {
    keys.fold(0int, |acc: int, c: char| acc + f(c))
}

/// The hits (when `hits`) or the misses of all keys together.
pub open spec fn key_total(m: Map<char, (u32, u32)>, hits: bool) -> int {
    sum_over(
        m.dom(),
        |c: char|
            if hits {
                m[c].0 as int
            } else {
                m[c].1 as int
            },
    )
}

proof fn lemma_sum_empty(f: spec_fn(char) -> int)
    ensures
        sum_over(Set::empty(), f) == 0,
{
    vstd::set::fold::lemma_fold_empty::<char, int>(0int, |acc: int, c: char| acc + f(c));
}

proof fn lemma_sum_insert(keys: Set<char>, f: spec_fn(char) -> int, a: char)
    requires
        keys.finite(),
        !keys.contains(a),
    ensures
        sum_over(keys.insert(a), f) == sum_over(keys, f) + f(a),
{
    let g = |acc: int, c: char| acc + f(c);
    assert(vstd::set::fold::is_fun_commutative(g));
    vstd::set::fold::lemma_fold_insert(keys, 0int, g, a);
}

/// A sum depends only on the values at the keys summed over.
proof fn lemma_sum_congruent(keys: Set<char>, f: spec_fn(char) -> int, g: spec_fn(char) -> int)
    requires
        keys.finite(),
        forall|c: char| keys.contains(c) ==> f(c) == g(c),
    ensures
        sum_over(keys, f) == sum_over(keys, g),
    decreases keys.len(),
{
    if keys.len() == 0 {
        assert(keys =~= Set::<char>::empty());
        lemma_sum_empty(f);
        lemma_sum_empty(g);
    } else {
        let a = keys.choose();
        let rest = keys.remove(a);
        assert(rest.insert(a) =~= keys);
        lemma_sum_congruent(rest, f, g);
        lemma_sum_insert(rest, f, a);
        lemma_sum_insert(rest, g, a);
    }
}

/// The totals of no keys are zero.
pub proof fn lemma_totals_empty()
    ensures
        key_total(Map::<char, (u32, u32)>::empty(), true) == 0,
        key_total(Map::<char, (u32, u32)>::empty(), false) == 0,
{
    lemma_total_empty(true);
    lemma_total_empty(false);
}

proof fn lemma_total_empty(hits: bool)
    ensures
        key_total(Map::<char, (u32, u32)>::empty(), hits) == 0,
{
    let m = Map::<char, (u32, u32)>::empty();
    assert(m.dom() =~= Set::<char>::empty());
    lemma_sum_empty(
        |c: char|
            if hits {
                m[c].0 as int
            } else {
                m[c].1 as int
            },
    );
}

/// The change of a key's counts, hits or misses.
pub open spec fn count_of(m: Map<char, (u32, u32)>, c: char, hits: bool) -> int {
    if m.dom().contains(c) {
        if hits {
            m[c].0 as int
        } else {
            m[c].1 as int
        }
    } else {
        0
    }
}

/// Setting the counts of one key changes each total by the change of that
/// key's counts.
pub proof fn lemma_total_insert(m: Map<char, (u32, u32)>, c: char, v: (u32, u32), hits: bool)
    requires
        m.dom().finite(),
    ensures
        key_total(m.insert(c, v), hits) == key_total(m, hits) - count_of(m, c, hits) + count_of(
            m.insert(c, v),
            c,
            hits,
        ),
{
    let n = m.insert(c, v);
    let f = |k: char|
        if hits {
            m[k].0 as int
        } else {
            m[k].1 as int
        };
    let g = |k: char|
        if hits {
            n[k].0 as int
        } else {
            n[k].1 as int
        };
    let rest = m.dom().remove(c);
    lemma_sum_congruent(rest, f, g);
    assert(n.dom() =~= rest.insert(c));
    lemma_sum_insert(rest, g, c);
    if m.dom().contains(c) {
        assert(m.dom() =~= rest.insert(c));
        lemma_sum_insert(rest, f, c);
    } else {
        assert(m.dom() =~= rest);
    }
}

/// One more attempt at a key adds one to the hits or to the misses.
pub proof fn lemma_total_counted(m: Map<char, (u32, u32)>, c: char, correct: bool)
    requires
        m.dom().finite(),
        counted(m, c, correct).0 <= u32::MAX,
        counted(m, c, correct).1 <= u32::MAX,
    ensures
        ({
            let n = m.insert(c, (counted(m, c, correct).0 as u32, counted(m, c, correct).1 as u32));
            &&& n.dom().finite()
            &&& key_total(n, true) == key_total(m, true) + (if correct {
                1int
            } else {
                0
            })
            &&& key_total(n, false) == key_total(m, false) + (if correct {
                0int
            } else {
                1
            })
        }),
{
    let v = (counted(m, c, correct).0 as u32, counted(m, c, correct).1 as u32);
    lemma_total_insert(m, c, v, true);
    lemma_total_insert(m, c, v, false);
}

/// Hits and misses for each expected character, kept in a `HashMap` by the
/// character's code point, with the characters listed in the order they
/// were first counted.
pub struct KeyStats {
    counts: HashMap<u32, (u32, u32)>,
    keys: Vec<char>,
}

impl View for KeyStats {
    type V = Map<char, (u32, u32)>;

    closed spec fn view(&self) -> Map<char, (u32, u32)> {
        Map::new(|c: char| self.counts@.contains_key(c as u32), |c: char| self.counts@[c as u32])
    }
}

/// Distinct characters have distinct code points.
proof fn lemma_code_points_distinct(a: char, b: char)
    requires
        a as u32 == b as u32,
    ensures
        a == b,
{
    assert(0 <= a as int <= 0x10FFFF);
    assert((a as u32) as int == a as int);
}

/// A key's (hits, misses) after one more attempt at it.
pub open spec fn counted(m: Map<char, (u32, u32)>, c: char, correct: bool) -> (int, int) {
    let (h, s) = if m.dom().contains(c) {
        m[c]
    } else {
        (0u32, 0u32)
    };
    if correct {
        (h + 1, s as int)
    } else {
        (h as int, s + 1)
    }
}

impl KeyStats {
    #[verifier::type_invariant]
    spec fn listed(&self) -> bool {
        &&& self.keys@.no_duplicates()
        &&& forall|i: int| 0 <= i < self.keys@.len() ==> self.counts@.contains_key(#[trigger] self.keys@[i] as u32)
        &&& forall|k: u32|
            #[trigger] self.counts@.contains_key(k) ==> exists|i: int|
                0 <= i < self.keys@.len() && #[trigger] self.keys@[i] as u32 == k
    }

    /// No statistics yet.
    pub fn new() -> (s: Self)
        ensures
            s@ == Map::<char, (u32, u32)>::empty(),
    {
        let s = KeyStats { counts: HashMap::new(), keys: Vec::new() };
        assert(s@ =~= Map::<char, (u32, u32)>::empty());
        s
    }

    /// The counts of key `c`, if it has any.
    pub fn get(&self, c: &char) -> (r: Option<(u32, u32)>)
        ensures
            r is Some <==> self@.dom().contains(*c),
            r matches Some(v) ==> v == self@[*c],
    {
        broadcast use vstd::std_specs::hash::group_hash_axioms;

        let code: u32 = *c as u32;
        match self.counts.get(&code) {
            Some(v) => Some(*v),
            None => None,
        }
    }

    /// Whether no key has counts.
    pub fn is_empty(&self) -> (b: bool)
        ensures
            b == (self@ == Map::<char, (u32, u32)>::empty()),
    {
        proof {
            use_type_invariant(self);
        }
        let b = self.counts.is_empty();
        proof {
            if b {
                assert(self@ =~= Map::<char, (u32, u32)>::empty());
            } else {
                let k = choose|k: u32| self.counts@.contains_key(k);
                let i = choose|i: int| 0 <= i < self.keys@.len() && #[trigger] self.keys@[i] as u32 == k;
                assert(self@.dom().contains(self.keys@[i]));
                assert(!(self@ =~= Map::<char, (u32, u32)>::empty()));
            }
        }
        b
    }

    /// Forgets all counts.
    pub fn clear(&mut self)
        ensures
            final(self)@ == Map::<char, (u32, u32)>::empty(),
    {
        *self = KeyStats::new();
    }

    /// Sets the counts of key `c`.
    pub fn insert(&mut self, c: char, counts: (u32, u32))
        ensures
            final(self)@ == old(self)@.insert(c, counts),
    {
        broadcast use vstd::std_specs::hash::group_hash_axioms;

        proof {
            use_type_invariant(&*self);
        }
        let code: u32 = c as u32;
        let ghost before = self.counts@;
        let ghost old_keys = self.keys@;
        let mut taken = KeyStats::new();
        std::mem::swap(&mut taken, self);
        let KeyStats { counts: mut table, mut keys } = taken;
        let previous = table.insert(code, counts);
        if previous.is_none() {
            proof {
                assert forall|i: int| 0 <= i < old_keys.len() implies old_keys[i] != c by {
                    assert(before.contains_key(old_keys[i] as u32));
                }
            }
            keys.push(c);
        }
        proof {
            let after = keys@;
            assert forall|i: int| 0 <= i < after.len() implies table@.contains_key(#[trigger] after[i] as u32) by {
                if i < old_keys.len() {
                    assert(after[i] == old_keys[i]);
                }
            }
            assert forall|k: u32| #[trigger] table@.contains_key(k) implies exists|i: int|
                0 <= i < after.len() && #[trigger] after[i] as u32 == k by {
                if k == code {
                    if previous.is_none() {
                        assert(after[after.len() - 1] as u32 == k);
                    } else {
                        assert(before.contains_key(k));
                        let i = choose|i: int| 0 <= i < old_keys.len() && #[trigger] old_keys[i] as u32 == k;
                        assert(after[i] == old_keys[i]);
                    }
                } else {
                    assert(before.contains_key(k));
                    let i = choose|i: int| 0 <= i < old_keys.len() && #[trigger] old_keys[i] as u32 == k;
                    assert(after[i] == old_keys[i]);
                }
            }
            if previous.is_none() {
                assert forall|i: int, j: int| 0 <= i < after.len() && 0 <= j < after.len() && i != j implies after[i]
                    != after[j] by {
                    if i < old_keys.len() && j < old_keys.len() {
                        assert(after[i] == old_keys[i] && after[j] == old_keys[j]);
                    } else if i < old_keys.len() {
                        assert(after[i] == old_keys[i]);
                    } else {
                        assert(after[j] == old_keys[j]);
                    }
                }
            } else {
                assert(after == old_keys);
            }
        }
        *self = KeyStats { counts: table, keys };
        proof {
            assert forall|d: char| #[trigger] self@.dom().contains(d) == old(self)@.insert(c, counts).dom().contains(d) && (
            self@.dom().contains(d) ==> self@[d] == old(self)@.insert(c, counts)[d]) by {
                if d as u32 == code {
                    lemma_code_points_distinct(d, c);
                }
            }
        }
        assert(self@ =~= old(self)@.insert(c, counts));
    }

    /// Counts one more attempt at key `c`: a hit when `correct`, else a miss.
    pub fn record(&mut self, c: char, correct: bool)
        requires
            old(self)@.dom().contains(c) ==> old(self)@[c].0 < u32::MAX && old(self)@[c].1
                < u32::MAX,
        ensures
            final(self)@.dom() == old(self)@.dom().insert(c),
            final(self)@ == old(self)@.insert(
                c,
                (counted(old(self)@, c, correct).0 as u32, counted(old(self)@, c, correct).1 as u32),
            ),
    {
        let (h, m) = match self.get(&c) {
            Some(v) => v,
            None => (0, 0),
        };
        if correct {
            self.insert(c, (h + 1, m));
        } else {
            self.insert(c, (h, m + 1));
        }
    }

    /// Whether every key's attempts fit in a `u32`.
    pub open spec fn attempts_fit(&self) -> bool {
        forall|c: char| self@.dom().contains(c) ==> self@[c].0 + self@[c].1 <= u32::MAX
    }

    /// The keys with their counts, in the order they were first counted.
    fn entries(&self) -> (entries: Vec<(char, u32, u32)>)
        ensures
            keys_unique(entries@),
            entries_view(entries@) == self@,
    {
        broadcast use vstd::std_specs::hash::group_hash_axioms;

        proof {
            use_type_invariant(self);
        }
        let mut entries: Vec<(char, u32, u32)> = Vec::new();
        let n = self.keys.len();
        for i in 0..n
            invariant
                n == self.keys@.len(),
                self.keys@.no_duplicates(),
                forall|j: int| 0 <= j < n ==> self.counts@.contains_key(#[trigger] self.keys@[j] as u32),
                entries@.len() == i,
                forall|j: int| 0 <= j < i ==> #[trigger] entries@[j] == (
                    self.keys@[j],
                    self@[self.keys@[j]].0,
                    self@[self.keys@[j]].1,
                ),
        {
            let c = self.keys[i];
            let code: u32 = c as u32;
            assert(self.counts@.contains_key(self.keys@[i as int] as u32));
            match self.counts.get(&code) {
                Some(v) => {
                    entries.push((c, v.0, v.1));
                },
                None => {},
            }
        }
        proof {
            let e = entries@;
            assert forall|a: int, b: int| 0 <= a < e.len() && 0 <= b < e.len() && e[a].0 == e[b].0 implies a == b by {
                assert(e[a].0 == self.keys@[a] && e[b].0 == self.keys@[b]);
            }
            assert forall|c: char| #[trigger] has_key(e, c) <==> self@.dom().contains(c) by {
                if self@.dom().contains(c) {
                    assert(self.counts@.contains_key(c as u32));
                    let i = choose|i: int| 0 <= i < self.keys@.len() && #[trigger] self.keys@[i] as u32 == c as u32;
                    lemma_code_points_distinct(self.keys@[i], c);
                    assert(e[i].0 == c);
                }
                if has_key(e, c) {
                    let i = choose|i: int| 0 <= i < e.len() && e[i].0 == c;
                    assert(self.keys@[i] == c);
                }
            }
            assert forall|c: char| #[trigger] self@.dom().contains(c) implies entries_view(e)[c] == self@[c] by {
                let i = choose|i: int| 0 <= i < e.len() && e[i].0 == c;
                assert(has_key(e, c));
                lemma_entries_view_at(e, i);
            }
            assert(entries_view(e) =~= self@);
        }
        entries
    }

    /// Up to `count` keys with at least one miss and at least two attempts,
    /// as (key, hits, misses), from the lowest accuracy up (see [`worst_spec`]).
    pub fn worst_keys(&self, count: usize) -> (res: Vec<(char, u32, u32)>)
        requires
            self.attempts_fit(),
        ensures
            worst_spec(self@, res@, count as int),
            forall|i: int| 0 <= i < res@.len() ==> #[trigger] res@[i].2 > 0 && res@[i].1 + res@[i].2 >= 2,
    {
        let entries = self.entries();
        let res = weakest_entries(&entries, count);
        proof {
            lemma_weakest_were_missed(self@, res@, count as int);
        }
        res
    }
}

/// Up to `count` keys of `entries` with at least one miss and at least two
/// attempts, as (key, hits, misses), from the lowest accuracy up (see
/// [`worst_spec`]).
fn weakest_entries(entries: &Vec<(char, u32, u32)>, count: usize) -> (res: Vec<(char, u32, u32)>)
    requires
        keys_unique(entries@),
        forall|c: char| entries_view(entries@).dom().contains(c) ==> entries_view(entries@)[c].0 + entries_view(
            entries@,
        )[c].1 <= u32::MAX,
    ensures
        worst_spec(entries_view(entries@), res@, count as int),
        forall|i: int| 0 <= i < res@.len() ==> #[trigger] res@[i].2 > 0 && res@[i].1 + res@[i].2 >= 2,
{
    let ghost s = entries@;
    let n = entries.len();
    let mut taken: Vec<bool> = Vec::new();
    for j in 0..n
        invariant
            taken@.len() == j,
            forall|k: int| 0 <= k < j ==> !taken@[k],
    {
        taken.push(false);
    }
    let mut res: Vec<(char, u32, u32)> = Vec::new();
    let ghost mut picked: Seq<int> = Seq::empty();
    let mut done = false;
    while res.len() < count && !done
        invariant
            s == entries@,
            n == s.len(),
            keys_unique(s),
            taken@.len() == n,
            res.len() <= count,
            forall|c: char| entries_view(s).dom().contains(c) ==> entries_view(s)[c].0 + entries_view(s)[c].1 <= u32::MAX,
            // which entries were picked, in order
            picked.len() == res.len(),
            forall|i: int| 0 <= i < res.len() ==> 0 <= #[trigger] picked[i] < n && res@[i] == s[picked[i]]
                && taken@[picked[i]],
            forall|i: int, j: int| 0 <= i < j < res.len() ==> picked[i] != picked[j],
            forall|k: int| 0 <= k < n && #[trigger] taken@[k] ==> eligible(s[k].1, s[k].2) && res@.contains(s[k]),
            // in order of accuracy, below everything not picked
            forall|i: int, j: int| 0 <= i < j < res.len() ==> accuracy_le(res@[i].1, res@[i].2, res@[j].1, res@[j].2),
            forall|i: int, k: int| 0 <= i < res.len() && 0 <= k < n && !taken@[k] && eligible(s[k].1, s[k].2)
                ==> accuracy_le(res@[i].1, res@[i].2, s[k].1, s[k].2),
            done ==> forall|k: int| 0 <= k < n && eligible(s[k].1, s[k].2) ==> taken@[k],
        decreases count - res.len(), if done { 0int } else { 1int },
    {
        // the least accurate eligible entry not yet picked
        let mut best: Option<usize> = None;
        for k in 0..n
            invariant
                s == entries@,
                n == s.len(),
                keys_unique(s),
                taken@.len() == n,
                forall|c: char| entries_view(s).dom().contains(c) ==> entries_view(s)[c].0 + entries_view(s)[c].1 <= u32::MAX,
                best matches Some(b) ==> b < k && !taken@[b as int] && eligible(s[b as int].1, s[b as int].2),
                best matches Some(b) ==> forall|j: int| 0 <= j < k && !taken@[j] && eligible(s[j].1, s[j].2)
                    ==> accuracy_le(s[b as int].1, s[b as int].2, s[j].1, s[j].2),
                best is None ==> forall|j: int| 0 <= j < k ==> taken@[j] || !eligible(s[j].1, s[j].2),
        {
            let (_, h, m) = entries[k];
            proof {
                lemma_entries_view_at(s, k as int);
            }
            if !taken[k] && m > 0 && (h as u64) + (m as u64) >= 2 {
                match best {
                    None => {
                        best = Some(k);
                    },
                    Some(b) => {
                        let (_, hb, mb) = entries[b];
                        proof {
                            lemma_entries_view_at(s, b as int);
                            lemma_product_fits(h, hb, mb);
                            lemma_product_fits(hb, h, m);
                        }
                        let lhs: u64 = (h as u64) * ((hb as u64) + (mb as u64));
                        let rhs: u64 = (hb as u64) * ((h as u64) + (m as u64));
                        if lhs < rhs {
                            proof {
                                assert forall|j: int| 0 <= j < k + 1 && !taken@[j] && eligible(s[j].1, s[j].2)
                                    implies accuracy_le(h, m, s[j].1, s[j].2) by {
                                    if j < k {
                                        lemma_accuracy_trans(h, m, hb, mb, s[j].1, s[j].2);
                                    }
                                }
                            }
                            best = Some(k);
                        } else {
                            proof {
                                lemma_accuracy_total(h, m, hb, mb);
                            }
                        }
                    },
                }
            }
        }
        match best {
            None => {
                done = true;
            },
            Some(b) => {
                let ghost old_res = res@;
                let ghost old_taken = taken@;
                let e = entries[b];
                res.push(e);
                taken.set(b, true);
                proof {
                    picked = picked.push(b as int);
                    assert(res@[res.len() - 1] == s[b as int]);
                    assert forall|k: int| 0 <= k < n && #[trigger] taken@[k] implies eligible(s[k].1, s[k].2) && res@.contains(s[k]) by {
                        if k == b {
                            assert(res@[res.len() - 1] == s[k]);
                        } else {
                            assert(old_taken[k]);
                            let i = choose|i: int| 0 <= i < old_res.len() && old_res[i] == s[k];
                            assert(res@[i] == s[k]);
                        }
                    }
                }
            },
        }
    }
    proof {
        assert forall|c: char| #[trigger] entries_view(s).dom().contains(c) && eligible(entries_view(s)[c].0, entries_view(s)[c].1)
            && !res@.contains((c, entries_view(s)[c].0, entries_view(s)[c].1))
            implies (forall|i: int| 0 <= i < res.len() ==> accuracy_le(res@[i].1, res@[i].2, entries_view(s)[c].0, entries_view(s)[c].1))
            && res.len() == count by {
            let k = choose|k: int| 0 <= k < s.len() && s[k].0 == c;
            lemma_entries_view_at(s, k);
            assert(!taken@[k]);
        }
        assert forall|i: int| 0 <= i < res.len() implies #[trigger] entries_view(s).dom().contains(res@[i].0)
            && entries_view(s)[res@[i].0] == (res@[i].1, res@[i].2) by {
            lemma_entries_view_at(s, picked[i]);
        }
        assert forall|i: int, j: int| 0 <= i < j < res.len() implies res@[i].0 != res@[j].0 by {
            assert(picked[i] != picked[j]);
        }
        assert forall|i: int| 0 <= i < res@.len() implies eligible(#[trigger] res@[i].1, res@[i].2) by {
            assert(taken@[picked[i]]);
        }
        assert forall|i: int| 0 <= i < res@.len() implies #[trigger] res@[i].2 > 0 && res@[i].1 + res@[i].2 >= 2 by {
            assert(eligible(res@[i].1, res@[i].2));
        }
    }
    res
}


/// Only keys that were missed at least once and tried at least twice are
/// among the weakest: a key typed without a miss, or tried once, never is;
/// and every key listed comes with its own counts.
pub proof fn lemma_weakest_were_missed(m: Map<char, (u32, u32)>, res: Seq<(char, u32, u32)>, count: int)
    requires
        worst_spec(m, res, count),
    ensures
        forall|i: int| 0 <= i < res.len() ==> #[trigger] res[i].2 > 0 && res[i].1 + res[i].2 >= 2,
        forall|i: int| 0 <= i < res.len() ==> #[trigger] m.dom().contains(res[i].0) && m[res[i].0] == (res[i].1, res[i].2),
        forall|c: char| #[trigger] m.dom().contains(c) && m[c].1 == 0 ==> !res.contains((c, m[c].0, m[c].1)),
{
    assert forall|i: int| 0 <= i < res.len() implies #[trigger] res[i].2 > 0 && res[i].1 + res[i].2 >= 2 by {
        assert(eligible(res[i].1, res[i].2));
    }
    assert forall|c: char| #[trigger] m.dom().contains(c) && m[c].1 == 0 implies !res.contains((c, m[c].0, m[c].1)) by {
        if res.contains((c, m[c].0, m[c].1)) {
            let i = choose|i: int| 0 <= i < res.len() && res[i] == (c, m[c].0, m[c].1);
            assert(eligible(res[i].1, res[i].2));
        }
    }
}

/// `res` holds the weakest keys of `m`: each is a judged key with its counts,
/// no key twice, from the lowest accuracy up; at most `count` of them; and
/// every judged key left out is at least as accurate as each one listed, and
/// is left out only when `count` keys are listed.
pub open spec fn worst_spec(m: Map<char, (u32, u32)>, res: Seq<(char, u32, u32)>, count: int) -> bool {
    &&& res.len() <= count
    &&& forall|i: int| 0 <= i < res.len() ==> #[trigger] m.dom().contains(res[i].0) && m[res[i].0] == (res[i].1, res[i].2)
    &&& forall|i: int| 0 <= i < res.len() ==> eligible(#[trigger] res[i].1, res[i].2)
    &&& forall|i: int, j: int| 0 <= i < j < res.len() ==> res[i].0 != res[j].0
    &&& forall|i: int, j: int| 0 <= i < j < res.len() ==> accuracy_le(res[i].1, res[i].2, res[j].1, res[j].2)
    &&& forall|c: char| #[trigger] m.dom().contains(c) && eligible(m[c].0, m[c].1) && !res.contains((c, m[c].0, m[c].1))
        ==> (forall|i: int| 0 <= i < res.len() ==> accuracy_le(res[i].1, res[i].2, m[c].0, m[c].1))
            && res.len() == count
}

} // verus!
