use vstd::prelude::*;
use vstd::hash_map::StringHashMap;
use vstd::multiset::Multiset;

use crate::pattern::{regex_captures_all, Pattern};

verus! {

/// The largest number of findings a tally holds: the greatest `i32`.
pub const MAX_TOTAL: u32 = 2147483647;

/// How often `key` occurs in `keys`.
pub open spec fn occurrences(keys: Seq<Seq<char>>, key: Seq<char>) -> nat
    decreases keys.len(),
{
    if keys.len() == 0 {
        0
    } else {
        occurrences(keys.drop_last(), key) + if keys.last() == key {
            1nat
        } else {
            0nat
        }
    }
}

/// The sum of the counts of `counts`.
pub open spec fn count_sum(counts: Seq<(Seq<char>, int)>) -> int
    decreases counts.len(),
{
    if counts.len() == 0 {
        0
    } else {
        count_sum(counts.drop_last()) + counts.last().1
    }
}

/// The key texts and counts of `pairs`.
pub open spec fn pairs_view(pairs: Seq<(String, u32)>) -> Seq<(Seq<char>, int)> {
    pairs.map_values(|e: (String, u32)| (e.0@, e.1 as int))
}

/// `counts` lists each key of `keys` exactly once, with the number of its
/// occurrences, and no other key.
pub open spec fn counts_match(keys: Seq<Seq<char>>, counts: Seq<(Seq<char>, int)>) -> bool {
    &&& forall|i: int, j: int|
        0 <= i < j < counts.len() ==> #[trigger] counts[i].0 != #[trigger] counts[j].0
    &&& forall|i: int|
        0 <= i < counts.len() ==> #[trigger] counts[i].1 == occurrences(keys, counts[i].0)
            && counts[i].1 > 0
    &&& forall|k: Seq<char>|
        #[trigger] occurrences(keys, k) > 0 ==> exists|i: int|
            0 <= i < counts.len() && #[trigger] counts[i].0 == k
}

/// Counting one more key changes only that key's number of occurrences.
proof fn lemma_occurrences_push(keys: Seq<Seq<char>>, key: Seq<char>, k: Seq<char>)
    ensures
        occurrences(keys.push(key), k) == occurrences(keys, k) + if key == k {
            1nat
        } else {
            0nat
        },
{
    assert(keys.push(key).drop_last() =~= keys);
}

/// Raising one count by one raises the sum by one.
proof fn lemma_count_sum_bump(counts: Seq<(Seq<char>, int)>, i: int)
    requires
        0 <= i < counts.len(),
    ensures
        count_sum(counts.update(i, (counts[i].0, counts[i].1 + 1))) == count_sum(counts) + 1,
    decreases counts.len(),
{
    let bumped = counts.update(i, (counts[i].0, counts[i].1 + 1));
    if i == counts.len() - 1 {
        assert(bumped.drop_last() =~= counts.drop_last());
    } else {
        assert(bumped.drop_last() =~= counts.drop_last().update(
            i,
            (counts[i].0, counts[i].1 + 1),
        ));
        lemma_count_sum_bump(counts.drop_last(), i);
    }
}

/// Why the findings of a line could not be counted.
#[derive(Debug, PartialEq, Eq, Structural)]
pub enum TallyError {
    /// The tally would pass `MAX_TOTAL` findings.
    Overflow,
    /// A match of the pattern has no text for capture group 1.
    MissingGroup,
}

/// Whether a match has a text for capture group 1.
pub open spec fn has_group_one(groups: Seq<Option<Seq<char>>>) -> bool {
    groups.len() > 1 && groups[1] is Some
}

/// The group-1 texts of a sequence of matches.
pub open spec fn group_one_keys(matches: Seq<Seq<Option<Seq<char>>>>) -> Seq<Seq<char>> {
    matches.map_values(|g: Seq<Option<Seq<char>>>| g[1]->0)
}

/// Each finding is counted under the text of its capture group 1, whatever
/// other groups the pattern has, and a match lacks a key exactly when its
/// group 1 is missing or took no part in the match.
pub proof fn lemma_findings_are_group_one(matches: Seq<Seq<Option<Seq<char>>>>)
    ensures
        group_one_keys(matches).len() == matches.len(),
        forall|i: int|
            0 <= i < matches.len() && matches[i].len() > 1 && matches[i][1] is Some
                ==> #[trigger] group_one_keys(matches)[i] == matches[i][1]->0,
        forall|g: Seq<Option<Seq<char>>>| #[trigger] has_group_one(g) <==> (g.len() > 1 && g[1] is Some),
{
}

/// Whether match `i` of `matches` cannot be counted onto `total` findings:
/// the total would pass `MAX_TOTAL`, or the match has no group-1 text.
pub open spec fn blocks_at(total: int, matches: Seq<Seq<Option<Seq<char>>>>, i: int) -> bool {
    total + i >= MAX_TOTAL || !has_group_one(matches[i])
}

/// Counts keyed findings: how often each key was seen, and how many keys in
/// all.
pub struct Tally {
    entries: Vec<(String, u32)>,
    index: StringHashMap<usize>,
    total: u32,
    keys: Ghost<Seq<Seq<char>>>,
}

impl View for Tally {
    type V = Seq<Seq<char>>;

    /// Every key counted so far, in the order counted.
    closed spec fn view(&self) -> Seq<Seq<char>> {
        self.keys@
    }
}

impl Tally {
    /// Each distinct key counted so far with its count, in the order of first
    /// appearance.
    pub closed spec fn counts(&self) -> Seq<(Seq<char>, int)> {
        pairs_view(self.entries@)
    }

    /// The tally's internal consistency.
    pub closed spec fn wf(&self) -> bool {
        &&& self.total as int == self.keys@.len()
        &&& self.keys@.len() <= MAX_TOTAL
        &&& counts_match(self.keys@, self.counts())
        &&& count_sum(self.counts()) == self.keys@.len()
        &&& forall|k: Seq<char>|
            #[trigger] self.index@.contains_key(k) <==> exists|i: int|
                0 <= i < self.counts().len() && #[trigger] self.counts()[i].0 == k
        &&& forall|k: Seq<char>|
            #[trigger] self.index@.contains_key(k) ==> self.index@[k] < self.entries.len()
                && self.counts()[self.index@[k] as int].0 == k
    }

    /// An empty tally.
    pub fn new() -> (t: Tally)
        ensures
            t.wf(),
            t@ == Seq::<Seq<char>>::empty(),
    {
        let t = Tally {
            entries: Vec::new(),
            index: StringHashMap::new(),
            total: 0,
            keys: Ghost(Seq::empty()),
        };
        assert(t.counts() =~= Seq::<(Seq<char>, int)>::empty());
        t
    }

    /// The counts of a consistent tally are exactly the occurrences of the
    /// keys counted, each distinct key listed once.
    pub proof fn lemma_counts(&self)
        requires
            self.wf(),
        ensures
            counts_match(self@, self.counts()),
            self@.len() <= MAX_TOTAL,
    {
    }

    /// The counts of a consistent tally add up to the number of keys counted.
    pub proof fn lemma_counts_add_up(&self)
        requires
            self.wf(),
        ensures
            count_sum(self.counts()) == self@.len(),
    {
    }

    /// Counts one finding of `key`.
    pub fn record(&mut self, key: &str)
        requires
            old(self).wf(),
            old(self)@.len() < MAX_TOTAL,
        ensures
            final(self).wf(),
            final(self)@ == old(self)@.push(key@),
    {
        let ghost old_keys = self.keys@;
        let ghost old_counts = self.counts();
        let ghost new_keys = old_keys.push(key@);
        let key_string = key.to_owned();
        let n = self.entries.len();
        let found = match self.index.get(key) {
            Some(i) => Some(*i),
            None => None,
        };
        proof {
            assert forall|k: Seq<char>|
                #[trigger] occurrences(new_keys, k) == occurrences(old_keys, k) + if key@ == k {
                    1nat
                } else {
                    0nat
                } by {
                lemma_occurrences_push(old_keys, key@, k);
            }
        }
        match found {
            Some(i) => {
                let c = self.entries[i].1;
                proof {
                    assert(old_counts[i as int].0 == key@);
                    assert(old_counts[i as int].1 == occurrences(old_keys, key@));
                    assert(occurrences(old_keys, key@) <= count_sum(old_counts)) by {
                        lemma_count_le_sum(old_counts, i as int);
                    }
                }
                self.entries.set(i, (key_string, c + 1));
                self.total = self.total + 1;
                self.keys = Ghost(new_keys);
                proof {
                    let bumped = old_counts.update(
                        i as int,
                        (old_counts[i as int].0, old_counts[i as int].1 + 1),
                    );
                    assert(self.counts() =~= bumped);
                    lemma_count_sum_bump(old_counts, i as int);
                    assert forall|k: Seq<char>| #[trigger]
                        occurrences(new_keys, k) > 0 implies exists|j: int|
                        0 <= j < self.counts().len() && #[trigger] self.counts()[j].0 == k by {
                        if k != key@ {
                            let j = choose|j: int|
                                0 <= j < old_counts.len() && #[trigger] old_counts[j].0 == k;
                            assert(self.counts()[j].0 == k);
                        } else {
                            assert(self.counts()[i as int].0 == k);
                        }
                    }
                    assert forall|k: Seq<char>|
                        #[trigger] self.index@.contains_key(k) <==> exists|j: int|
                            0 <= j < self.counts().len() && #[trigger] self.counts()[j].0 == k by {
                        if self.index@.contains_key(k) {
                            let j = self.index@[k] as int;
                            assert(old_counts[j].0 == k);
                            assert(self.counts()[j].0 == k);
                        }
                        if exists|j: int| 0 <= j < self.counts().len() && #[trigger] self.counts()[j].0 == k {
                            let j = choose|j: int| 0 <= j < self.counts().len() && #[trigger] self.counts()[j].0 == k;
                            assert(old_counts[j].0 == k);
                        }
                    }
                    assert forall|k: Seq<char>|
                        #[trigger] self.index@.contains_key(k) implies self.index@[k] < self.entries.len()
                            && self.counts()[self.index@[k] as int].0 == k by {
                        assert(old_counts[self.index@[k] as int].0 == k);
                    }
                }
            },
            None => {
                proof {
                    assert forall|j: int| 0 <= j < old_counts.len() implies old_counts[j].0 != key@ by {
                        if old_counts[j].0 == key@ {
                            assert(self.index@.contains_key(key@));
                        }
                    }
                    if occurrences(old_keys, key@) > 0 {
                        let j = choose|j: int| 0 <= j < old_counts.len() && #[trigger] old_counts[j].0 == key@;
                    }
                    assert(occurrences(old_keys, key@) == 0);
                }
                self.entries.push((key_string, 1));
                self.index.insert(key.to_owned(), n);
                self.total = self.total + 1;
                self.keys = Ghost(new_keys);
                proof {
                    assert(self.counts() =~= old_counts.push((key@, 1)));
                    assert(self.counts().drop_last() =~= old_counts);
                    assert forall|k: Seq<char>| #[trigger]
                        occurrences(new_keys, k) > 0 implies exists|j: int|
                        0 <= j < self.counts().len() && #[trigger] self.counts()[j].0 == k by {
                        if k != key@ {
                            let j = choose|j: int|
                                0 <= j < old_counts.len() && #[trigger] old_counts[j].0 == k;
                            assert(self.counts()[j].0 == k);
                        } else {
                            assert(self.counts()[n as int].0 == k);
                        }
                    }
                    assert forall|k: Seq<char>|
                        #[trigger] self.index@.contains_key(k) <==> exists|j: int|
                            0 <= j < self.counts().len() && #[trigger] self.counts()[j].0 == k by {
                        if k == key@ {
                            assert(self.counts()[n as int].0 == k);
                        } else {
                            if self.index@.contains_key(k) {
                                let j = self.index@[k] as int;
                                assert(old_counts[j].0 == k);
                                assert(self.counts()[j].0 == k);
                            }
                            if exists|j: int| 0 <= j < self.counts().len() && #[trigger] self.counts()[j].0 == k {
                                let j = choose|j: int| 0 <= j < self.counts().len() && #[trigger] self.counts()[j].0 == k;
                                assert(j < n);
                                assert(old_counts[j].0 == k);
                            }
                        }
                    }
                    assert forall|k: Seq<char>|
                        #[trigger] self.index@.contains_key(k) implies self.index@[k] < self.entries.len()
                            && self.counts()[self.index@[k] as int].0 == k by {
                        if k != key@ {
                            assert(old_counts[self.index@[k] as int].0 == k);
                        }
                    }
                }
            },
        }
    }
}

impl Tally {
    /// The number of findings counted.
    pub fn total(&self) -> (r: u32)
        requires
            self.wf(),
        ensures
            r == self@.len(),
    {
        self.total
    }

    /// The number of distinct keys counted.
    pub fn unique(&self) -> (r: usize)
        requires
            self.wf(),
        ensures
            r == self.counts().len(),
    {
        self.entries.len()
    }

    /// Counts the group-1 text of each match in `matches`, in order. Stops at
    /// the first match that would pass `MAX_TOTAL` findings or has no group-1
    /// text, and reports which of the two it was.
    pub fn record_matches(&mut self, matches: &Vec<Vec<Option<String>>>) -> (r: Result<(), TallyError>)
        requires
            old(self).wf(),
        ensures
            final(self).wf(),
            r is Ok <==> forall|i: int|
                0 <= i < matches.deep_view().len() ==> !blocks_at(
                    old(self)@.len() as int,
                    matches.deep_view(),
                    i,
                ),
            r is Ok ==> final(self)@ == old(self)@ + group_one_keys(matches.deep_view()),
            r is Ok ==> forall|i: int|
                0 <= i < matches.deep_view().len() ==> final(self)@[old(self)@.len() + i]
                    == matches.deep_view()[i][1]->0,
            r matches Err(e) ==> exists|f: int|
                0 <= f < matches.deep_view().len() && (forall|j: int|
                    0 <= j < f ==> !#[trigger] blocks_at(
                        old(self)@.len() as int,
                        matches.deep_view(),
                        j,
                    )) && blocks_at(old(self)@.len() as int, matches.deep_view(), f) && (e
                    == TallyError::Overflow <==> old(self)@.len() + f >= MAX_TOTAL),
    {
        let ghost ms = matches.deep_view();
        let ghost start = self@;
        let n = matches.len();
        let mut i: usize = 0;
        while i < n
            invariant
                n == ms.len(),
                ms == matches.deep_view(),
                start == old(self)@,
                i <= n,
                self.wf(),
                self@ == start + group_one_keys(ms.take(i as int)),
                forall|j: int| 0 <= j < i ==> !#[trigger] blocks_at(start.len() as int, ms, j),
            decreases n - i,
        {
            assert(matches@[i as int].deep_view() == ms[i as int]);
            if self.total == MAX_TOTAL {
                assert(blocks_at(start.len() as int, ms, i as int));
                return Err(TallyError::Overflow);
            }
            if matches[i].len() < 2 {
                assert(blocks_at(start.len() as int, ms, i as int));
                return Err(TallyError::MissingGroup);
            }
            assert(matches@[i as int]@[1].deep_view() == ms[i as int][1]);
            match &matches[i][1] {
                Some(key) => {
                    self.record(key.as_str());
                    assert(ms.take(i + 1) =~= ms.take(i as int).push(ms[i as int]));
                    assert(group_one_keys(ms.take(i + 1)) =~= group_one_keys(ms.take(i as int)).push(
                        key@,
                    ));
                },
                None => {
                    assert(blocks_at(start.len() as int, ms, i as int));
                    return Err(TallyError::MissingGroup);
                },
            }
            i = i + 1;
        }
        assert(ms.take(n as int) =~= ms);
        Ok(())
    }

    /// Counts the group-1 text of each successive match of `re` in `line`,
    /// as `record_matches` does.
    pub fn record_line(&mut self, re: &Pattern, line: &str) -> (r: Result<(), TallyError>)
        requires
            old(self).wf(),
        ensures
            final(self).wf(),
            r is Ok <==> forall|i: int|
                0 <= i < regex_captures_all(re@, line@).len() ==> !blocks_at(
                    old(self)@.len() as int,
                    regex_captures_all(re@, line@),
                    i,
                ),
            r is Ok ==> final(self)@ == old(self)@ + group_one_keys(regex_captures_all(re@, line@)),
            r matches Err(e) ==> exists|f: int|
                0 <= f < regex_captures_all(re@, line@).len() && (forall|j: int|
                    0 <= j < f ==> !#[trigger] blocks_at(
                        old(self)@.len() as int,
                        regex_captures_all(re@, line@),
                        j,
                    )) && blocks_at(old(self)@.len() as int, regex_captures_all(re@, line@), f)
                    && (e == TallyError::Overflow <==> old(self)@.len() + f >= MAX_TOTAL),
    {
        let matches = re.captures_all(line);
        self.record_matches(&matches)
    }
}

/// Whether the counts of `pairs` never rise from one position to a later one.
pub open spec fn ranked(pairs: Seq<(String, u32)>) -> bool {
    forall|i: int, j: int| 0 <= i < j < pairs.len() ==> #[trigger] pairs[i].1 >= #[trigger] pairs[j].1
}

/// What an insertion into a sequence holds.
proof fn lemma_insert_contains<A>(s: Seq<A>, p: int, e: A)
    requires
        0 <= p <= s.len(),
    ensures
        forall|x: A| #[trigger] s.insert(p, e).contains(x) <==> (s.contains(x) || x == e),
{
    s.insert_ensures(p, e);
    assert forall|x: A| #[trigger] s.insert(p, e).contains(x) implies (s.contains(x) || x == e) by {
        let k = choose|k: int| 0 <= k < s.insert(p, e).len() && s.insert(p, e)[k] == x;
        if k < p {
            assert(s[k] == x);
        } else if k > p {
            assert(s[k - 1] == x);
        }
    }
    assert forall|x: A| (s.contains(x) || x == e) implies #[trigger] s.insert(p, e).contains(x) by {
        if x == e {
            assert(s.insert(p, e)[p] == x);
        } else {
            let k = choose|k: int| 0 <= k < s.len() && s[k] == x;
            if k < p {
                assert(s.insert(p, e)[k] == x);
            } else {
                assert(s.insert(p, e)[k + 1] == x);
            }
        }
    }
}

/// What a push onto a sequence holds.
proof fn lemma_push_contains<A>(s: Seq<A>, e: A)
    ensures
        forall|x: A| #[trigger] s.push(e).contains(x) <==> (s.contains(x) || x == e),
{
    assert(s.push(e) =~= s.insert(s.len() as int, e));
    lemma_insert_contains(s, s.len() as int, e);
}

impl Tally {
    /// The distinct keys with their counts, the most frequent first.
    pub fn ranking(&self) -> (r: Vec<(String, u32)>)
        requires
            self.wf(),
        ensures
            r.len() == self.counts().len(),
            forall|x: (Seq<char>, int)| #[trigger]
                pairs_view(r@).contains(x) <==> self.counts().contains(x),
            ranked(r@),
    {
        let ghost counts = self.counts();
        let n = self.entries.len();
        let mut r: Vec<(String, u32)> = Vec::new();
        let mut k: usize = 0;
        while k < n
            invariant
                n == self.entries.len(),
                counts == self.counts(),
                counts == pairs_view(self.entries@),
                k <= n,
                r.len() == k,
                ranked(r@),
                forall|x: (Seq<char>, int)| #[trigger]
                    pairs_view(r@).contains(x) <==> counts.take(k as int).contains(x),
            decreases n - k,
        {
            let c = self.entries[k].1;
            let mut p: usize = 0;
            while p < r.len() && r[p].1 >= c
                invariant
                    p <= r.len(),
                    forall|q: int| 0 <= q < p ==> r@[q].1 >= c,
                decreases r.len() - p,
            {
                p = p + 1;
            }
            let ghost before = r@;
            let e = (self.entries[k].0.clone(), c);
            r.insert(p, e);
            proof {
                before.insert_ensures(p as int, e);
                assert forall|i: int, j: int| 0 <= i < j < r@.len() implies #[trigger] r@[i].1
                    >= #[trigger] r@[j].1 by {
                    if j < p {
                    } else if j == p {
                    } else if i < p {
                        assert(r@[j] == before[j - 1]);
                    } else if i == p {
                        assert(r@[j] == before[j - 1]);
                        if p < before.len() {
                            assert(before[p as int].1 < c);
                            if j - 1 > p {
                                assert(before[p as int].1 >= before[j - 1].1);
                            }
                        }
                    } else {
                        assert(r@[i] == before[i - 1]);
                        assert(r@[j] == before[j - 1]);
                    }
                }
                assert(pairs_view(r@) =~= pairs_view(before).insert(p as int, (e.0@, e.1 as int)));
                lemma_insert_contains(pairs_view(before), p as int, (e.0@, e.1 as int));
                assert(counts.take(k + 1) =~= counts.take(k as int).push(counts[k as int]));
                lemma_push_contains(counts.take(k as int), counts[k as int]);
            }
            k = k + 1;
        }
        assert(counts.take(n as int) =~= counts);
        r
    }
}

/// How often a key occurs is how often the multiset of the keys holds it.
pub proof fn lemma_occurrences_are_multiplicities(keys: Seq<Seq<char>>, k: Seq<char>)
    ensures
        occurrences(keys, k) == keys.to_multiset().count(k),
    decreases keys.len(),
{
    broadcast use vstd::multiset::group_multiset_axioms;

    if keys.len() == 0 {
        assert(keys.to_multiset() =~= Multiset::<Seq<char>>::empty()) by {
            broadcast use vstd::seq_lib::group_to_multiset_ensures;

        }
    } else {
        lemma_occurrences_are_multiplicities(keys.drop_last(), k);
        assert(keys.drop_last().push(keys.last()) =~= keys);
        vstd::seq_lib::to_multiset_build(keys.drop_last(), keys.last());
    }
}

/// The keys of `counts`.
pub open spec fn count_keys(counts: Seq<(Seq<char>, int)>) -> Seq<Seq<char>> {
    counts.map_values(|e: (Seq<char>, int)| e.0)
}

/// The counts are a function of the multiset of keys alone: two tallies that
/// counted the same keys, in whatever order (for instance the findings of the
/// same lines read in another order), have the same total, the same number of
/// distinct keys, and the same (key, count) pairs.
pub proof fn lemma_counts_ignore_order(a: &Tally, b: &Tally)
    requires
        a.wf(),
        b.wf(),
        a@.to_multiset() == b@.to_multiset(),
    ensures
        a@.len() == b@.len(),
        a.counts().len() == b.counts().len(),
        forall|x: (Seq<char>, int)| #[trigger] a.counts().contains(x) <==> b.counts().contains(x),
{
    broadcast use vstd::seq_lib::to_multiset_len;

    let ca = a.counts();
    let cb = b.counts();
    assert forall|k: Seq<char>| #[trigger] occurrences(a@, k) == occurrences(b@, k) by {
        lemma_occurrences_are_multiplicities(a@, k);
        lemma_occurrences_are_multiplicities(b@, k);
    }
    assert forall|x: (Seq<char>, int)| #[trigger] ca.contains(x) implies cb.contains(x) by {
        let i = choose|i: int| 0 <= i < ca.len() && ca[i] == x;
        assert(ca[i].1 == occurrences(a@, ca[i].0) && ca[i].1 > 0);
        assert(occurrences(a@, x.0) > 0);
        assert(occurrences(b@, x.0) > 0);
        let j = choose|j: int| 0 <= j < cb.len() && #[trigger] cb[j].0 == x.0;
        assert(cb[j].1 == occurrences(b@, cb[j].0));
        assert(cb[j] == x);
    }
    assert forall|x: (Seq<char>, int)| #[trigger] cb.contains(x) implies ca.contains(x) by {
        let j = choose|j: int| 0 <= j < cb.len() && cb[j] == x;
        assert(cb[j].1 == occurrences(b@, cb[j].0) && cb[j].1 > 0);
        assert(occurrences(b@, x.0) > 0);
        assert(occurrences(a@, x.0) > 0);
        let i = choose|i: int| 0 <= i < ca.len() && #[trigger] ca[i].0 == x.0;
        assert(ca[i].1 == occurrences(a@, ca[i].0));
        assert(ca[i] == x);
    }
    let ka = count_keys(ca);
    let kb = count_keys(cb);
    assert(ka.no_duplicates()) by {
        assert forall|i: int, j: int| 0 <= i < ka.len() && 0 <= j < ka.len() && i != j implies ka[i]
            != ka[j] by {
            if i < j {
                assert(ca[i].0 != ca[j].0);
            } else {
                assert(ca[j].0 != ca[i].0);
            }
        }
    }
    assert(kb.no_duplicates()) by {
        assert forall|i: int, j: int| 0 <= i < kb.len() && 0 <= j < kb.len() && i != j implies kb[i]
            != kb[j] by {
            if i < j {
                assert(cb[i].0 != cb[j].0);
            } else {
                assert(cb[j].0 != cb[i].0);
            }
        }
    }
    assert(ka.to_set() =~= kb.to_set()) by {
        assert forall|k: Seq<char>| ka.to_set().contains(k) implies kb.to_set().contains(k) by {
            let i = choose|i: int| 0 <= i < ka.len() && ka[i] == k;
            assert(ca.contains(ca[i]));
            assert(cb.contains(ca[i]));
            let j = choose|j: int| 0 <= j < cb.len() && cb[j] == ca[i];
            assert(kb[j] == k);
        }
        assert forall|k: Seq<char>| kb.to_set().contains(k) implies ka.to_set().contains(k) by {
            let j = choose|j: int| 0 <= j < kb.len() && kb[j] == k;
            assert(cb.contains(cb[j]));
            assert(ca.contains(cb[j]));
            let i = choose|i: int| 0 <= i < ca.len() && ca[i] == cb[j];
            assert(ka[i] == k);
        }
    }
    ka.unique_seq_to_set();
    kb.unique_seq_to_set();
    assert(a@.len() == a@.to_multiset().len());
    assert(b@.len() == b@.to_multiset().len());
}

/// The keys of a reading: the keys found in each line, line after line.
pub open spec fn all_keys(lines: Seq<Seq<Seq<char>>>) -> Seq<Seq<char>>
    decreases lines.len(),
{
    if lines.len() == 0 {
        Seq::empty()
    } else {
        all_keys(lines.drop_last()) + lines.last()
    }
}

/// The keys of two readings one after the other.
proof fn lemma_all_keys_concat(a: Seq<Seq<Seq<char>>>, b: Seq<Seq<Seq<char>>>)
    ensures
        all_keys(a + b) == all_keys(a) + all_keys(b),
    decreases b.len(),
{
    if b.len() == 0 {
        assert(a + b =~= a);
        assert(all_keys(a) + all_keys(b) =~= all_keys(a));
    } else {
        assert((a + b).drop_last() =~= a + b.drop_last());
        lemma_all_keys_concat(a, b.drop_last());
        assert(all_keys(a + b) =~= all_keys(a) + all_keys(b));
    }
}

/// Taking one line out of a reading takes its keys out of the multiset.
proof fn lemma_all_keys_remove(lines: Seq<Seq<Seq<char>>>, j: int)
    requires
        0 <= j < lines.len(),
    ensures
        all_keys(lines).to_multiset() == all_keys(lines.remove(j)).to_multiset().add(
            lines[j].to_multiset(),
        ),
{
    broadcast use vstd::multiset::group_multiset_axioms;
    broadcast use vstd::seq_lib::lemma_multiset_commutative;

    let pre = lines.take(j);
    let one = seq![lines[j]];
    let post = lines.skip(j + 1);
    assert(lines =~= pre + one + post);
    assert(lines.remove(j) =~= pre + post);
    lemma_all_keys_concat(pre + one, post);
    lemma_all_keys_concat(pre, one);
    lemma_all_keys_concat(pre, post);
    assert(one.drop_last() =~= Seq::<Seq<Seq<char>>>::empty());
    assert(all_keys(Seq::<Seq<Seq<char>>>::empty()) == Seq::<Seq<char>>::empty());
    assert(all_keys(one) == all_keys(Seq::<Seq<Seq<char>>>::empty()) + lines[j]);
    assert(all_keys(one) =~= lines[j]);
    assert(all_keys(lines).to_multiset() =~= all_keys(lines.remove(j)).to_multiset().add(
        lines[j].to_multiset(),
    ));
}

/// Reading the same lines in another order finds the same multiset of keys,
/// so (by `lemma_counts_ignore_order`) the same counts.
pub proof fn lemma_line_order_ignored(first: Seq<Seq<Seq<char>>>, second: Seq<Seq<Seq<char>>>)
    requires
        first.to_multiset() == second.to_multiset(),
    ensures
        all_keys(first).to_multiset() == all_keys(second).to_multiset(),
    decreases first.len(),
{
    broadcast use vstd::multiset::group_multiset_axioms;
    broadcast use vstd::seq_lib::to_multiset_len;
    broadcast use vstd::seq_lib::to_multiset_contains;

    if first.len() == 0 {
        vstd::seq_lib::to_multiset_len(first);
        vstd::seq_lib::to_multiset_len(second);
        assert(second.len() == 0);
        assert(first =~= second);
    } else {
        let x = first.last();
        let rest = first.drop_last();
        assert(rest.push(x) =~= first);
        vstd::seq_lib::to_multiset_build(rest, x);
        assert(first.to_multiset().count(x) > 0);
        assert(second.contains(x));
        let j = choose|j: int| 0 <= j < second.len() && second[j] == x;
        vstd::seq_lib::to_multiset_remove(second, j);
        assert(second.remove(j).to_multiset() =~= rest.to_multiset());
        lemma_line_order_ignored(rest, second.remove(j));
        lemma_all_keys_remove(second, j);
        vstd::seq_lib::lemma_multiset_commutative(all_keys(rest), x);
    }
}

/// A single count is at most the sum of non-negative counts.
proof fn lemma_count_le_sum(counts: Seq<(Seq<char>, int)>, i: int)
    requires
        0 <= i < counts.len(),
        forall|j: int| 0 <= j < counts.len() ==> #[trigger] counts[j].1 > 0,
    ensures
        counts[i].1 <= count_sum(counts),
    decreases counts.len(),
{
    if i < counts.len() - 1 {
        lemma_count_le_sum(counts.drop_last(), i);
        lemma_count_sum_nonneg(counts.drop_last());
    } else {
        lemma_count_sum_nonneg(counts.drop_last());
    }
}

/// The sum of positive counts is not negative.
proof fn lemma_count_sum_nonneg(counts: Seq<(Seq<char>, int)>)
    requires
        forall|j: int| 0 <= j < counts.len() ==> #[trigger] counts[j].1 > 0,
    ensures
        count_sum(counts) >= 0,
    decreases counts.len(),
{
    if counts.len() > 0 {
        lemma_count_sum_nonneg(counts.drop_last());
    }
}

} // verus!
