use vstd::prelude::*;

verus! {

/// In-memory multimap from a semantic hash to every path registered
/// under it, in registration order, duplicates kept.
pub struct SoulRegistry {
    souls: Vec<(String, Vec<String>)>,
}

/// The keys of the entry list are pairwise distinct.
pub open spec fn entries_wf(s: Seq<(String, Vec<String>)>) -> bool {
    forall|i: int, j: int|
        0 <= i < j < s.len() ==> (#[trigger] s[i]).0@ != (#[trigger] s[j]).0@
}

/// The mapping an entry list stands for.
pub open spec fn entries_map(s: Seq<(String, Vec<String>)>) -> Map<Seq<char>, Seq<Seq<char>>>
    decreases s.len(),
{
    if s.len() == 0 {
        Map::empty()
    } else {
        entries_map(s.drop_last()).insert(s.last().0@, s.last().1.deep_view())
    }
}

impl View for SoulRegistry {
    type V = Map<Seq<char>, Seq<Seq<char>>>;

    closed spec fn view(&self) -> Map<Seq<char>, Seq<Seq<char>>> {
        entries_map(self.souls@)
    }
}

proof fn lemma_entries_contains(s: Seq<(String, Vec<String>)>, k: Seq<char>)
    ensures
        entries_map(s).contains_key(k) <==> exists|i: int|
            0 <= i < s.len() && (#[trigger] s[i]).0@ == k,
    decreases s.len(),
{
    if s.len() > 0 {
        lemma_entries_contains(s.drop_last(), k);
        if s.last().0@ == k {
            assert(s[s.len() - 1].0@ == k);
        } else {
            if entries_map(s).contains_key(k) {
                let i = choose|i: int| 0 <= i < s.drop_last().len() && (#[trigger] s.drop_last()[i]).0@
                    == k;
                assert(s[i].0@ == k);
            }
            if exists|i: int| 0 <= i < s.len() && (#[trigger] s[i]).0@ == k {
                let i = choose|i: int| 0 <= i < s.len() && (#[trigger] s[i]).0@ == k;
                assert(s.drop_last()[i].0@ == k);
            }
        }
    }
}

proof fn lemma_entries_at(s: Seq<(String, Vec<String>)>, i: int)
    requires
        entries_wf(s),
        0 <= i < s.len(),
    ensures
        entries_map(s).contains_key(s[i].0@),
        entries_map(s)[s[i].0@] == s[i].1.deep_view(),
    decreases s.len(),
{
    if i < s.len() - 1 {
        assert(entries_wf(s.drop_last()));
        assert(s.drop_last()[i] == s[i]);
        lemma_entries_at(s.drop_last(), i);
        assert(s[i].0@ != s.last().0@);
    }
}

proof fn lemma_entries_update(s: Seq<(String, Vec<String>)>, i: int, w: Vec<String>)
    requires
        entries_wf(s),
        0 <= i < s.len(),
    ensures
        entries_map(s.update(i, (s[i].0, w))) == entries_map(s).insert(s[i].0@, w.deep_view()),
    decreases s.len(),
{
    let s2 = s.update(i, (s[i].0, w));
    if i == s.len() - 1 {
        assert(s2.drop_last() =~= s.drop_last());
        assert(s2.last() == (s[i].0, w));
        assert(entries_map(s2) =~= entries_map(s).insert(s[i].0@, w.deep_view()));
    } else {
        assert(entries_wf(s.drop_last()));
        assert(s.drop_last()[i] == s[i]);
        lemma_entries_update(s.drop_last(), i, w);
        assert(s2.drop_last() =~= s.drop_last().update(i, (s[i].0, w)));
        assert(s2.last() == s.last());
        assert(s[i].0@ != s.last().0@);
        assert(entries_map(s2) =~= entries_map(s).insert(s[i].0@, w.deep_view()));
    }
}

fn index_of_key(souls: &Vec<(String, Vec<String>)>, key: &String) -> (r: Option<usize>)
    ensures
        match r {
            Option::Some(i) => i < souls@.len() && souls@[i as int].0@ == key@,
            Option::None => forall|j: int|
                0 <= j < souls@.len() ==> (#[trigger] souls@[j]).0@ != key@,
        },
{
    let mut i: usize = 0;
    while i < souls.len()
        invariant
            0 <= i <= souls@.len(),
            forall|j: int| 0 <= j < i ==> (#[trigger] souls@[j]).0@ != key@,
        decreases souls@.len() - i,
    {
        if souls[i].0 == *key {
            return Option::Some(i);
        }
        i += 1;
    }
    Option::None
}

impl SoulRegistry {
    /// A registry is well formed when no semantic hash keys two
    /// different entries.
    pub closed spec fn wf(&self) -> bool {
        entries_wf(self.souls@)
    }

    /// An empty registry.
    pub fn new() -> (r: SoulRegistry)
        ensures
            r.wf(),
            r@ == Map::<Seq<char>, Seq<Seq<char>>>::empty(),
    {
        SoulRegistry { souls: Vec::new() }
    }

    /// Append `path` under `p_hash`, creating the entry when the hash
    /// is new; never deduplicates, always succeeds.
    pub fn register(&mut self, p_hash: String, path: String)
        requires
            old(self).wf(),
        ensures
            final(self).wf(),
            final(self)@ == old(self)@.insert(
                p_hash@,
                (if old(self)@.contains_key(p_hash@) {
                    old(self)@[p_hash@]
                } else {
                    Seq::<Seq<char>>::empty()
                }).push(path@),
            ),
    {
        proof {
            lemma_entries_contains(old(self).souls@, p_hash@);
        }
        match index_of_key(&self.souls, &p_hash) {
            Option::Some(i) => {
                proof {
                    lemma_entries_at(self.souls@, i as int);
                }
                let ghost s = self.souls@;
                let mut entry = self.souls.remove(i);
                let ghost old_paths = entry.1.deep_view();
                entry.1.push(path);
                proof {
                    assert(entry.1.deep_view() =~= old_paths.push(path@));
                }
                self.souls.insert(i, entry);
                proof {
                    assert(self.souls@ =~= s.update(i as int, (s[i as int].0, entry.1)));
                    lemma_entries_update(s, i as int, entry.1);
                    assert forall|x: int, y: int| 0 <= x < y < self.souls@.len() implies (
                    #[trigger] self.souls@[x]).0@ != (#[trigger] self.souls@[y]).0@ by {
                        assert(self.souls@[x].0 == s[x].0);
                        assert(self.souls@[y].0 == s[y].0);
                    }
                }
            },
            Option::None => {
                let ghost s = self.souls@;
                let mut paths: Vec<String> = Vec::new();
                paths.push(path);
                proof {
                    assert(paths.deep_view() =~= Seq::<Seq<char>>::empty().push(path@));
                }
                self.souls.push((p_hash, paths));
                proof {
                    assert(self.souls@.drop_last() =~= s);
                    assert(entries_map(self.souls@) =~= entries_map(s).insert(
                        p_hash@,
                        paths.deep_view(),
                    ));
                    assert forall|x: int, y: int| 0 <= x < y < self.souls@.len() implies (
                    #[trigger] self.souls@[x]).0@ != (#[trigger] self.souls@[y]).0@ by {
                        if y < s.len() {
                            assert(self.souls@[x] == s[x]);
                            assert(self.souls@[y] == s[y]);
                        } else {
                            assert(self.souls@[y].0@ == p_hash@);
                            assert(self.souls@[x] == s[x]);
                        }
                    }
                }
            },
        }
    }

    /// The paths registered under `p_hash`, in registration order, or
    /// the empty list when the hash is unknown.
    pub fn find_by_soul(&self, p_hash: &str) -> (r: Vec<String>)
        requires
            self.wf(),
        ensures
            r.deep_view() == (if self@.contains_key(p_hash@) {
                self@[p_hash@]
            } else {
                Seq::<Seq<char>>::empty()
            }),
    {
        proof {
            lemma_entries_contains(self.souls@, p_hash@);
        }
        let key: String = p_hash.to_owned();
        match index_of_key(&self.souls, &key) {
            Option::Some(i) => {
                proof {
                    lemma_entries_at(self.souls@, i as int);
                }
                let r = self.souls[i].1.clone();
                proof {
                    assert(r@ =~= self.souls@[i as int].1@);
                    assert(r.deep_view() =~= self.souls@[i as int].1.deep_view());
                }
                r
            },
            Option::None => {
                let r: Vec<String> = Vec::new();
                proof {
                    assert(r.deep_view() =~= Seq::<Seq<char>>::empty());
                }
                r
            },
        }
    }
}

/// Map different implementations to the same semantic soul: every path
/// registered under `p_hash`.
pub fn find_soul_siblings(p_hash: &str, registry: &SoulRegistry) -> (r: Vec<String>)
    requires
        registry.wf(),
    ensures
        r.deep_view() == (if registry@.contains_key(p_hash@) {
            registry@[p_hash@]
        } else {
            Seq::<Seq<char>>::empty()
        }),
{
    registry.find_by_soul(p_hash)
}

/// Law: after a registration the key's paths are exactly the prior
/// paths with the new one appended, every other key is untouched, and
/// an unknown key still reads as the empty sequence.
pub proof fn lemma_register_round_trip(
    m: Map<Seq<char>, Seq<Seq<char>>>,
    k: Seq<char>,
    path: Seq<char>,
)
    ensures
        ({
            let prior = if m.contains_key(k) {
                m[k]
            } else {
                Seq::<Seq<char>>::empty()
            };
            let m2 = m.insert(k, prior.push(path));
            &&& m2.contains_key(k)
            &&& m2[k] == prior.push(path)
            &&& m2[k].len() == prior.len() + 1
            &&& m2[k].last() == path
            &&& m2[k].drop_last() == prior
            &&& forall|k2: Seq<char>|
                m.contains_key(k2) && k2 != k ==> m2.contains_key(k2) && m2[k2] == m[k2]
        }),
{
    let prior = if m.contains_key(k) {
        m[k]
    } else {
        Seq::<Seq<char>>::empty()
    };
    assert(prior.push(path).drop_last() =~= prior);
}

} // verus!
