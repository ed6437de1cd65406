use vstd::prelude::*;
use crate::order::compare_strs;

verus! {

/// The content hashes held in a list of strings.
pub open spec fn hashes(v: Seq<String>) -> Seq<Seq<char>> {
    v.map_values(|s: String| s@)
}

/// `s` with every entry equal to `h` left out, the rest in order.
pub open spec fn remove_all(s: Seq<Seq<char>>, h: Seq<char>) -> Seq<Seq<char>>
    decreases s.len(),
{
    if s.len() == 0 {
        s
    } else if s.last() == h {
        remove_all(s.drop_last(), h)
    } else {
        remove_all(s.drop_last(), h).push(s.last())
    }
}

/// How many entries of `s` equal `h`.
pub open spec fn occurrences(s: Seq<Seq<char>>, h: Seq<char>) -> nat
    decreases s.len(),
{
    if s.len() == 0 {
        0
    } else {
        occurrences(s.drop_last(), h) + if s.last() == h { 1nat } else { 0nat }
    }
}

/// The favorites: the persisted sequence of content hashes, and a reload
/// counter that every mutation advances so that readers know to read again.
pub struct FavoritesStore {
    entries: Vec<String>,
    reload: u64,
}

/// The favorites that a stored value gives: the stored sequence, or nothing
/// when the value is absent (a value that does not parse counts as absent).
pub fn load_favorites(stored: Option<Vec<String>>) -> (r: Vec<String>)
    ensures
        r@ == match stored {
            Some(v) => v@,
            None => Seq::<String>::empty(),
        },
{
    match stored {
        Some(v) => v,
        None => Vec::new(),
    }
}

/// The favorites with every entry equal to `hash` filtered out.
pub fn remove_favorite(favs: &Vec<String>, hash: &str) -> (r: Vec<String>)
    ensures
        hashes(r@) == remove_all(hashes(favs@), hash@),
{
    let mut r: Vec<String> = Vec::new();
    let mut i: usize = 0;
    proof {
        assert(hashes(favs@).subrange(0, 0) =~= Seq::<Seq<char>>::empty());
        assert(hashes(r@) =~= Seq::<Seq<char>>::empty());
    }
    while i < favs.len()
        invariant
            i <= favs@.len(),
            hashes(r@) == remove_all(hashes(favs@).subrange(0, i as int), hash@),
        decreases favs@.len() - i,
    {
        let ghost pre = hashes(favs@).subrange(0, i as int);
        proof {
            assert(hashes(favs@).subrange(0, i + 1).drop_last() =~= pre);
        }
        if compare_strs(favs[i].as_str(), hash) != 0 {
            r.push(favs[i].clone());
            proof {
                assert(hashes(r@) =~= remove_all(pre, hash@).push(favs@[i as int]@));
            }
        }
        i = i + 1;
    }
    proof {
        assert(hashes(favs@).subrange(0, favs@.len() as int) =~= hashes(favs@));
    }
    r
}

proof fn lemma_remove_all_absent(s: Seq<Seq<char>>, h: Seq<char>)
    ensures
        !remove_all(s, h).contains(h),
        occurrences(remove_all(s, h), h) == 0,
    decreases s.len(),
{
    if s.len() > 0 {
        lemma_remove_all_absent(s.drop_last(), h);
        let r = remove_all(s.drop_last(), h);
        if s.last() != h {
            assert(r.push(s.last()).drop_last() =~= r);
            if r.push(s.last()).contains(h) {
                let k = choose|k: int| 0 <= k < r.push(s.last()).len() && r.push(s.last())[k] == h;
                assert(r[k] == h);
            }
        }
    }
}

proof fn lemma_remove_all_non_member(s: Seq<Seq<char>>, h: Seq<char>)
    requires
        !s.contains(h),
    ensures
        remove_all(s, h) == s,
    decreases s.len(),
{
    if s.len() > 0 {
        assert(s.last() == s[s.len() - 1]);
        if s.drop_last().contains(h) {
            let k = choose|k: int| 0 <= k < s.drop_last().len() && s.drop_last()[k] == h;
            assert(s[k] == h);
        }
        lemma_remove_all_non_member(s.drop_last(), h);
        assert(s.drop_last().push(s.last()) =~= s);
    }
}

/// After `add(h)` the favorites contain `h`; after `add(h)` and then
/// `remove(h)` they do not.
pub proof fn lemma_add_then_remove(s: Seq<Seq<char>>, h: Seq<char>)
    ensures
        s.push(h).contains(h),
        !remove_all(s.push(h), h).contains(h),
{
    assert(s.push(h)[s.len() as int] == h);
    lemma_remove_all_absent(s.push(h), h);
}

/// Removing a hash that is not among the favorites leaves them unchanged.
pub proof fn lemma_remove_non_member(s: Seq<Seq<char>>, h: Seq<char>)
    requires
        !s.contains(h),
    ensures
        remove_all(s, h) == s,
{
    lemma_remove_all_non_member(s, h);
}

/// Adding does not deduplicate: adding `h` twice gives two more occurrences
/// of `h`, and one removal of `h` strips all of them.
pub proof fn lemma_add_twice(s: Seq<Seq<char>>, h: Seq<char>)
    ensures
        occurrences(s.push(h).push(h), h) == occurrences(s, h) + 2,
        occurrences(remove_all(s.push(h).push(h), h), h) == 0,
        !remove_all(s.push(h).push(h), h).contains(h),
{
    assert(s.push(h).push(h).drop_last() =~= s.push(h));
    assert(s.push(h).drop_last() =~= s);
    assert(s.push(h).last() == h);
    assert(s.push(h).push(h).last() == h);
    assert(occurrences(s.push(h), h) == occurrences(s, h) + 1);
    lemma_remove_all_absent(s.push(h).push(h), h);
}

impl FavoritesStore {
    /// The persisted hashes, in order.
    pub closed spec fn entries(&self) -> Seq<Seq<char>> {
        hashes(self.entries@)
    }

    /// The reload counter.
    pub closed spec fn reloads(&self) -> nat {
        self.reload as nat
    }

    /// A store over what storage held: `None` when the key was absent or
    /// its value did not parse.
    pub fn open(stored: Option<Vec<String>>) -> (r: FavoritesStore)
        ensures
            r.entries() == hashes(
                match stored {
                    Some(v) => v@,
                    None => Seq::<String>::empty(),
                },
            ),
            r.reloads() == 0,
    {
        FavoritesStore { entries: load_favorites(stored), reload: 0 }
    }

    /// The persisted sequence, as it would be written back.
    pub fn load(&self) -> (r: Vec<String>)
        ensures
            hashes(r@) == self.entries(),
    {
        self.entries.clone()
    }

    /// Whether there is at least one favorite.
    pub fn has(&self) -> (r: bool)
        ensures
            r == (self.entries().len() > 0),
    {
        self.entries.len() > 0
    }

    /// The reload counter.
    pub fn reload_count(&self) -> (r: u64)
        ensures
            r == self.reloads(),
    {
        self.reload
    }

    /// Appends `hash`, without removing an equal entry already there.
    pub fn add(&mut self, hash: String)
        requires
            old(self).reloads() < u64::MAX,
        ensures
            final(self).entries() == old(self).entries().push(hash@),
            final(self).reloads() == old(self).reloads() + 1,
    {
        let ghost h = hash@;
        self.entries.push(hash);
        self.reload = self.reload + 1;
        proof {
            assert(hashes(self.entries@) =~= hashes(old(self).entries@).push(h));
        }
    }

    /// Removes every entry equal to `hash`.
    pub fn remove(&mut self, hash: &str)
        requires
            old(self).reloads() < u64::MAX,
        ensures
            final(self).entries() == remove_all(old(self).entries(), hash@),
            final(self).reloads() == old(self).reloads() + 1,
    {
        self.entries = remove_favorite(&self.entries, hash);
        self.reload = self.reload + 1;
    }
}

} // verus!
