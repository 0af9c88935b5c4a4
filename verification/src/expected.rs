use vstd::prelude::*;

verus! {

/// The map from file paths to hashes that a list of `(path, hash)` pairs
/// denotes: a later pair for a path overrides an earlier one.
pub open spec fn pairs_map(pairs: Seq<(String, String)>) -> Map<Seq<char>, Seq<char>>
    decreases pairs.len(),
{
    if pairs.len() == 0 {
        Map::empty()
    } else {
        pairs_map(pairs.drop_last()).insert(pairs.last().0@, pairs.last().1@)
    }
}

/// No path occurs twice among the pairs.
pub open spec fn paths_distinct(pairs: Seq<(String, String)>) -> bool {
    forall|i: int, j: int|
        0 <= i < pairs.len() && 0 <= j < pairs.len() && i != j ==> #[trigger] pairs[i].0@
            != #[trigger] pairs[j].0@
}

/// The hashes that the files of the workspace must have before an authoring
/// operation may write them, keyed by path.
pub struct ExpectedHashes {
    entries: Vec<(String, String)>,
}

impl View for ExpectedHashes {
    type V = Map<Seq<char>, Seq<char>>;

    closed spec fn view(&self) -> Map<Seq<char>, Seq<char>> {
        pairs_map(self.entries@)
    }
}

/// With no path repeated, each pair's hash is the one its path maps to.
pub proof fn lemma_pairs_map_at(pairs: Seq<(String, String)>, i: int)
    requires
        paths_distinct(pairs),
        0 <= i < pairs.len(),
    ensures
        pairs_map(pairs).dom().contains(pairs[i].0@),
        pairs_map(pairs)[pairs[i].0@] == pairs[i].1@,
    decreases pairs.len(),
{
    if i < pairs.len() - 1 {
        let rest = pairs.drop_last();
        assert(rest[i] == pairs[i]);
        assert(paths_distinct(rest)) by {
            assert forall|a: int, b: int|
                0 <= a < rest.len() && 0 <= b < rest.len() && a != b implies #[trigger] rest[a].0@
                != #[trigger] rest[b].0@ by {
                assert(rest[a] == pairs[a] && rest[b] == pairs[b]);
            }
        }
        lemma_pairs_map_at(rest, i);
        assert(pairs[i].0@ != pairs[pairs.len() - 1].0@);
    }
}

/// Only paths that occur among the pairs are mapped.
pub proof fn lemma_pairs_map_dom(pairs: Seq<(String, String)>, path: Seq<char>)
    requires
        pairs_map(pairs).dom().contains(path),
    ensures
        exists|i: int| 0 <= i < pairs.len() && #[trigger] pairs[i].0@ == path,
    decreases pairs.len(),
{
    if pairs.last().0@ != path {
        let rest = pairs.drop_last();
        lemma_pairs_map_dom(rest, path);
        let i = choose|i: int| 0 <= i < rest.len() && #[trigger] rest[i].0@ == path;
        assert(pairs[i] == rest[i]);
    }
}

impl ExpectedHashes {
    #[verifier::type_invariant]
    spec fn paths_are_distinct(self) -> bool {
        paths_distinct(self.entries@)
    }

    /// No expectations at all.
    pub fn new() -> (hashes: Self)
        ensures
            hashes@ == Map::<Seq<char>, Seq<char>>::empty(),
    {
        ExpectedHashes { entries: Vec::new() }
    }

    /// Expects `hash` for `path`, in place of any hash expected for it before.
    pub fn insert(&mut self, path: String, hash: String)
        ensures
            final(self)@ == old(self)@.insert(path@, hash@),
    {
        proof {
            use_type_invariant(&*self);
        }
        let ghost before = self.entries@;
        let mut entries: Vec<(String, String)> = Vec::new();
        std::mem::swap(&mut entries, &mut self.entries);
        let n = entries.len();
        let mut j: usize = 0;
        while j < n
            invariant
                entries@ == before,
                old(self)@ == pairs_map(before),
                n == before.len(),
                j <= n,
                paths_distinct(before),
                forall|i: int| 0 <= i < j ==> #[trigger] before[i].0@ != path@,
            decreases n - j,
        {
            if entries[j].0 == path {
                let ghost updated = before.update(j as int, (path, hash));
                entries.set(j, (path, hash));
                proof {
                    assert(entries@ == updated);
                    assert(paths_distinct(updated)) by {
                        assert forall|a: int, b: int|
                            0 <= a < updated.len() && 0 <= b < updated.len() && a != b implies
                            #[trigger] updated[a].0@ != #[trigger] updated[b].0@ by {
                            assert(updated[a].0@ == before[a].0@);
                            assert(updated[b].0@ == before[b].0@);
                        }
                    }
                    lemma_pairs_map_at(before, j as int);
                    let expected = pairs_map(before).insert(path@, hash@);
                    assert forall|p: Seq<char>| #[trigger] pairs_map(updated).dom().contains(p)
                        <==> expected.dom().contains(p) by {
                        if pairs_map(updated).dom().contains(p) {
                            lemma_pairs_map_dom(updated, p);
                            let i = choose|i: int| 0 <= i < updated.len() && #[trigger] updated[i].0@ == p;
                            lemma_pairs_map_at(before, i);
                        }
                        if expected.dom().contains(p) && p != path@ {
                            lemma_pairs_map_dom(before, p);
                            let i = choose|i: int| 0 <= i < before.len() && #[trigger] before[i].0@ == p;
                            lemma_pairs_map_at(updated, i);
                        }
                        if p == path@ {
                            lemma_pairs_map_at(updated, j as int);
                        }
                    }
                    assert forall|p: Seq<char>| #[trigger] pairs_map(updated).dom().contains(p)
                        implies pairs_map(updated)[p] == expected[p] by {
                        lemma_pairs_map_dom(updated, p);
                        let i = choose|i: int| 0 <= i < updated.len() && #[trigger] updated[i].0@ == p;
                        lemma_pairs_map_at(updated, i);
                        if i != j {
                            lemma_pairs_map_at(before, i);
                        }
                    }
                    assert(pairs_map(updated) =~= expected);
                }
                self.entries = entries;
                return;
            }
            j = j + 1;
        }
        entries.push((path, hash));
        proof {
            let pushed = entries@;
            assert(pushed.drop_last() =~= before);
            assert(paths_distinct(pushed)) by {
                assert forall|a: int, b: int|
                    0 <= a < pushed.len() && 0 <= b < pushed.len() && a != b implies
                    #[trigger] pushed[a].0@ != #[trigger] pushed[b].0@ by {
                    if a < n && b < n {
                        assert(pushed[a] == before[a] && pushed[b] == before[b]);
                    } else if a < n {
                        assert(pushed[a] == before[a]);
                    } else {
                        assert(pushed[b] == before[b]);
                    }
                }
            }
        }
        self.entries = entries;
    }

    /// The expectations as `(path, hash)` pairs, each path once.
    pub fn into_entries(self) -> (pairs: Vec<(String, String)>)
        ensures
            paths_distinct(pairs@),
            pairs_map(pairs@) == self@,
    {
        proof {
            use_type_invariant(&self);
        }
        self.entries
    }
}

} // verus!
