//! Small association maps with last-write-wins semantics, viewed in
//! contracts as `Map`.  `CharMap` keys by character strings (macro names,
//! opcode keys); `CcMap` keys by numeric controller indices.

use vstd::prelude::*;

verus! {

/// A map from character strings to `V`; a later insertion of the same key
/// shadows the earlier one.
#[derive(Debug, Clone, PartialEq)]
pub struct CharMap<V> {
    entries: Vec<(Vec<char>, V)>,
}

impl<V> CharMap<V> {
    /// The map a run of insertions denotes: later entries win.
    pub closed spec fn map_of(s: Seq<(Vec<char>, V)>) -> Map<Seq<char>, V>
        decreases s.len(),
    {
        if s.len() == 0 {
            Map::empty()
        } else {
            Self::map_of(s.drop_last()).insert(s.last().0@, s.last().1)
        }
    }

    pub closed spec fn view(&self) -> Map<Seq<char>, V> {
        Self::map_of(self.entries@)
    }

    proof fn lemma_map_of_last_match(s: Seq<(Vec<char>, V)>, k: Seq<char>, i: int)
        requires
            0 <= i < s.len(),
            s[i].0@ == k,
            forall|j: int| i < j < s.len() ==> s[j].0@ != k,
        ensures
            Self::map_of(s).contains_key(k),
            Self::map_of(s)[k] == s[i].1,
        decreases s.len(),
    {
        if i == s.len() - 1 {
        } else {
            Self::lemma_map_of_last_match(s.drop_last(), k, i);
        }
    }

    proof fn lemma_map_of_absent(s: Seq<(Vec<char>, V)>, k: Seq<char>)
        requires
            forall|j: int| 0 <= j < s.len() ==> s[j].0@ != k,
        ensures
            !Self::map_of(s).contains_key(k),
        decreases s.len(),
    {
        if s.len() > 0 {
            Self::lemma_map_of_absent(s.drop_last(), k);
        }
    }

    pub fn new() -> (r: Self)
        ensures
            r@ == Map::<Seq<char>, V>::empty(),
    {
        CharMap { entries: Vec::new() }
    }

    /// Binds `k` to `v`, shadowing any earlier binding of `k`.
    pub fn insert(&mut self, k: Vec<char>, v: V)
        ensures
            final(self)@ == old(self)@.insert(k@, v),
    {
        let ghost before = self.entries@;
        self.entries.push((k, v));
        proof {
            assert(self.entries@.drop_last() =~= before);
        }
    }

    /// Looks `k` up; the latest binding wins.
    pub fn get(&self, k: &Vec<char>) -> (r: Option<&V>)
        ensures
            match r {
                Some(v) => self@.contains_key(k@) && *v == self@[k@],
                None => !self@.contains_key(k@),
            },
    {
        let n = self.entries.len();
        let mut j: usize = n;
        while j > 0
            invariant
                0 <= j <= n,
                n == self.entries@.len(),
                forall|m: int| j <= m < n ==> self.entries@[m].0@ != k@,
            decreases j,
        {
            j -= 1;
            if crate::lexer::chars_eq(&self.entries[j].0, k) {
                proof {
                    Self::lemma_map_of_last_match(self.entries@, k@, j as int);
                }
                return Some(&self.entries[j].1);
            }
        }
        proof {
            Self::lemma_map_of_absent(self.entries@, k@);
        }
        None
    }


    /// The denoted map always has a finite domain.
    pub proof fn lemma_view_finite(&self)
        ensures
            self@.dom().finite(),
    {
        Self::lemma_map_of_finite(self.entries@);
    }

    proof fn lemma_map_of_finite(s: Seq<(Vec<char>, V)>)
        ensures
            Self::map_of(s).dom().finite(),
        decreases s.len(),
    {
        if s.len() > 0 {
            Self::lemma_map_of_finite(s.drop_last());
        }
    }

    /// Whether `k` is bound.
    pub fn contains_key(&self, k: &Vec<char>) -> (r: bool)
        ensures
            r == self@.contains_key(k@),
    {
        match self.get(k) {
            Some(_) => true,
            None => false,
        }
    }
}

/// A map from controller indices to `V`; a later insertion of the same
/// index shadows the earlier one.
#[derive(Debug, Clone, PartialEq)]
pub struct CcMap<V> {
    entries: Vec<(u32, V)>,
}

impl<V> CcMap<V> {
    /// The map a run of insertions denotes: later entries win.
    pub closed spec fn map_of(s: Seq<(u32, V)>) -> Map<u32, V>
        decreases s.len(),
    {
        if s.len() == 0 {
            Map::empty()
        } else {
            Self::map_of(s.drop_last()).insert(s.last().0, s.last().1)
        }
    }

    pub closed spec fn view(&self) -> Map<u32, V> {
        Self::map_of(self.entries@)
    }

    proof fn lemma_map_of_last_match(s: Seq<(u32, V)>, k: u32, i: int)
        requires
            0 <= i < s.len(),
            s[i].0 == k,
            forall|j: int| i < j < s.len() ==> s[j].0 != k,
        ensures
            Self::map_of(s).contains_key(k),
            Self::map_of(s)[k] == s[i].1,
        decreases s.len(),
    {
        if i == s.len() - 1 {
        } else {
            Self::lemma_map_of_last_match(s.drop_last(), k, i);
        }
    }

    proof fn lemma_map_of_absent(s: Seq<(u32, V)>, k: u32)
        requires
            forall|j: int| 0 <= j < s.len() ==> s[j].0 != k,
        ensures
            !Self::map_of(s).contains_key(k),
        decreases s.len(),
    {
        if s.len() > 0 {
            Self::lemma_map_of_absent(s.drop_last(), k);
        }
    }

    pub fn new() -> (r: Self)
        ensures
            r@ == Map::<u32, V>::empty(),
    {
        CcMap { entries: Vec::new() }
    }

    /// Binds `k` to `v`, shadowing any earlier binding of `k`.
    pub fn insert(&mut self, k: u32, v: V)
        ensures
            final(self)@ == old(self)@.insert(k, v),
    {
        let ghost before = self.entries@;
        self.entries.push((k, v));
        proof {
            assert(self.entries@.drop_last() =~= before);
        }
    }

    /// Looks `k` up; the latest binding wins.
    pub fn get(&self, k: u32) -> (r: Option<&V>)
        ensures
            match r {
                Some(v) => self@.contains_key(k) && *v == self@[k],
                None => !self@.contains_key(k),
            },
    {
        let n = self.entries.len();
        let mut j: usize = n;
        while j > 0
            invariant
                0 <= j <= n,
                n == self.entries@.len(),
                forall|m: int| j <= m < n ==> self.entries@[m].0 != k,
            decreases j,
        {
            j -= 1;
            if self.entries[j].0 == k {
                proof {
                    Self::lemma_map_of_last_match(self.entries@, k, j as int);
                }
                return Some(&self.entries[j].1);
            }
        }
        proof {
            Self::lemma_map_of_absent(self.entries@, k);
        }
        None
    }
}

} // verus!
