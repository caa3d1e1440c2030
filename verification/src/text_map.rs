//! Maps and sets keyed by text.
use crate::taint_engine::{clone_texts, has_text};
use crate::text::{text_eq, views, Text};
use vstd::prelude::*;

verus! {

broadcast use crate::text::group_views;

/// A map keyed by text. The latest value inserted under a key is its value.
#[derive(Debug)]
pub struct TextMap<V> {
    entries: Vec<(String, V)>,
}

/// The value of the last entry under `key`, if there is one.
pub open spec fn last_under<V>(s: Seq<(String, V)>, key: Text) -> Option<V>
    decreases s.len(),
{
    if s.len() == 0 {
        None
    } else if s.last().0@ == key {
        Some(s.last().1)
    } else {
        last_under(s.drop_last(), key)
    }
}

impl<V> View for TextMap<V> {
    type V = Map<Text, V>;

    closed spec fn view(&self) -> Map<Text, V> {
        Map::new(
            |k: Text| last_under(self.entries@, k) is Some,
            |k: Text| last_under(self.entries@, k)->0,
        )
    }
}

impl<V> TextMap<V> {
    /// An empty map.
    pub fn new() -> (r: Self)
        ensures
            r@ == Map::<Text, V>::empty(),
    {
        let r = TextMap { entries: Vec::new() };
        assert(r@ =~= Map::<Text, V>::empty());
        r
    }

    /// Sets the value under `key`.
    pub fn insert(&mut self, key: String, value: V)
        ensures
            final(self)@ == old(self)@.insert(key@, value),
    {
        let ghost before = self.entries@;
        self.entries.push((key, value));
        proof {
            assert(self.entries@.drop_last() =~= before);
            assert(self@ =~= old(self)@.insert(key@, value));
        }
    }

    /// Takes out what is under `key`.
    pub fn remove(&mut self, key: &str)
        ensures
            final(self)@ == old(self)@.remove(key@),
    {
        let mut taken: Vec<(String, V)> = Vec::new();
        std::mem::swap(&mut taken, &mut self.entries);
        let ghost all = taken@;
        let mut kept: Vec<(String, V)> = Vec::new();
        // The entries are moved from the back of `taken`, so `kept` is reversed first.
        let mut stack: Vec<(String, V)> = Vec::new();
        assert(all.take(taken@.len() as int) =~= all);
        while taken.len() > 0
            invariant
                taken@ == all.take(taken@.len() as int),
                taken@.len() <= all.len(),
                stack@ =~= all.skip(taken@.len() as int).reverse(),
            decreases taken.len(),
        {
            let ghost n = taken@.len() as int;
            match taken.pop() {
                Some(e) => {
                    stack.push(e);
                    assert(taken@ =~= all.take(n - 1));
                    assert(stack@ =~= all.skip(n - 1).reverse());
                },
                None => {},
            }
        }
        assert(all.take(0) =~= Seq::empty());
        assert(stack@ =~= all.reverse());
        assert(forall|x: Text| last_under(Seq::<(String, V)>::empty(), x) is None);
        while stack.len() > 0
            invariant
                stack@.len() <= all.len(),
                stack@ =~= all.skip(all.len() - stack@.len()).reverse(),
                forall|x: Text|
                    #[trigger] last_under(kept@, x) == if x == key@ {
                        None
                    } else {
                        last_under(all.take(all.len() - stack@.len()), x)
                    },
            decreases stack.len(),
        {
            let ghost n = all.len() - stack@.len();
            match stack.pop() {
                Some(e) => {
                    let ghost k0 = kept@;
                    assert(e == all[n]);
                    assert(all.take(n + 1).drop_last() =~= all.take(n));
                    assert(all.take(n + 1).last() == e);
                    if !text_eq(e.0.as_str(), key) {
                        kept.push(e);
                        assert(kept@.drop_last() =~= k0);
                    }
                    assert forall|x: Text|
                        #[trigger] last_under(kept@, x) == if x == key@ {
                            None
                        } else {
                            last_under(all.take(n + 1), x)
                        } by {
                        assert(last_under(k0, x) == if x == key@ {
                            None
                        } else {
                            last_under(all.take(n), x)
                        });
                    }
                    assert(stack@ =~= all.skip(n + 1).reverse());
                },
                None => {},
            }
        }
        assert(all.take(all.len() as int) =~= all);
        self.entries = kept;
        assert(self@ =~= old(self)@.remove(key@));
    }

    /// The value under `key`.
    pub fn get(&self, key: &str) -> (r: Option<&V>)
        ensures
            match r {
                Some(v) => self@.contains_key(key@) && *v == self@[key@],
                None => !self@.contains_key(key@),
            },
    {
        let mut i: usize = self.entries.len();
        assert(self.entries@.take(i as int) =~= self.entries@);
        while i > 0
            invariant
                i <= self.entries@.len(),
                last_under(self.entries@, key@) == last_under(
                    self.entries@.take(i as int),
                    key@,
                ),
            decreases i,
        {
            assert(self.entries@.take(i as int).drop_last() =~= self.entries@.take(i - 1));
            i = i - 1;
            if text_eq(self.entries[i].0.as_str(), key) {
                return Some(&self.entries[i].1);
            }
        }
        None
    }
}

/// A map from text to text.
#[derive(Debug)]
pub struct TextTable {
    map: TextMap<String>,
}

impl View for TextTable {
    type V = Map<Text, Text>;

    closed spec fn view(&self) -> Map<Text, Text> {
        Map::new(|k: Text| self.map@.contains_key(k), |k: Text| self.map@[k]@)
    }
}

impl Clone for TextTable {
    fn clone(&self) -> (r: Self)
        ensures
            r@ == self@,
    {
        let mut out: TextMap<String> = TextMap { entries: Vec::new() };
        let n: usize = self.map.entries.len();
        let mut i: usize = 0;
        assert(self.map.entries@.take(0) =~= Seq::empty());
        while i < n
            invariant
                i <= n,
                n == self.map.entries@.len(),
                forall|k: Text|
                    match (
                        #[trigger] last_under(out.entries@, k),
                        last_under(self.map.entries@.take(i as int), k),
                    ) {
                        (Some(a), Some(b)) => a@ == b@,
                        (None, None) => true,
                        _ => false,
                    },
            decreases n - i,
        {
            let ghost before = out.entries@;
            let e = &self.map.entries[i];
            out.entries.push((e.0.clone(), e.1.clone()));
            proof {
                assert(out.entries@.drop_last() =~= before);
                assert(self.map.entries@.take(i + 1).drop_last() =~= self.map.entries@.take(
                    i as int,
                ));
                assert forall|k: Text|
                    match (
                        #[trigger] last_under(out.entries@, k),
                        last_under(self.map.entries@.take(i + 1), k),
                    ) {
                        (Some(a), Some(b)) => a@ == b@,
                        (None, None) => true,
                        _ => false,
                    } by {
                    let old_pair = (
                        last_under(before, k),
                        last_under(self.map.entries@.take(i as int), k),
                    );
                }
            }
            i = i + 1;
        }
        assert(self.map.entries@.take(n as int) =~= self.map.entries@);
        let r = TextTable { map: out };
        assert(r@ =~= self@) by {
            assert forall|k: Text| r@.contains_key(k) == self@.contains_key(k) by {
                assert(last_under(r.map.entries@, k) is Some == last_under(self.map.entries@, k) is Some);
            }
            assert forall|k: Text| r@.contains_key(k) implies #[trigger] r@[k] == self@[k] by {
                assert(last_under(r.map.entries@, k) is Some);
            }
        }
        r
    }
}

impl TextTable {
    /// An empty table.
    pub fn new() -> (r: Self)
        ensures
            r@ == Map::<Text, Text>::empty(),
    {
        let r = TextTable { map: TextMap::new() };
        assert(r@ =~= Map::<Text, Text>::empty());
        r
    }

    /// Sets the text under `key`.
    pub fn insert(&mut self, key: &str, value: &str)
        ensures
            final(self)@ == old(self)@.insert(key@, value@),
    {
        self.map.insert(key.to_owned(), value.to_owned());
        assert(self@ =~= old(self)@.insert(key@, value@));
    }

    /// The text under `key`.
    pub fn get(&self, key: &str) -> (r: Option<&str>)
        ensures
            match r {
                Some(v) => self@.contains_key(key@) && v@ == self@[key@],
                None => !self@.contains_key(key@),
            },
    {
        match self.map.get(key) {
            Some(v) => Some(v.as_str()),
            None => None,
        }
    }
}

/// A set of texts.
#[derive(Debug)]
pub struct TextSet {
    items: Vec<String>,
}

impl View for TextSet {
    type V = Set<Text>;

    closed spec fn view(&self) -> Set<Text> {
        views(self.items@).to_set()
    }
}

impl Clone for TextSet {
    fn clone(&self) -> (r: Self)
        ensures
            r@ == self@,
    {
        TextSet { items: clone_texts(&self.items) }
    }
}

impl TextSet {
    /// The empty set.
    pub fn new() -> (r: Self)
        ensures
            r@ == Set::<Text>::empty(),
    {
        let r = TextSet { items: Vec::new() };
        assert(r@ =~= Set::<Text>::empty());
        r
    }

    /// Adds a text.
    pub fn insert(&mut self, item: String)
        ensures
            final(self)@ == old(self)@.insert(item@),
    {
        let ghost before = self.items@;
        self.items.push(item);
        proof {
            assert forall|x: Text| self@.contains(x) == old(self)@.insert(item@).contains(x) by {
                if views(before).contains(x) {
                    let i = choose|i: int| 0 <= i < views(before).len() && views(before)[i] == x;
                    assert(views(self.items@)[i] == x);
                }
                if x == item@ {
                    assert(views(self.items@)[before.len() as int] == x);
                }
                if views(self.items@).contains(x) && x != item@ {
                    let i = choose|i: int|
                        0 <= i < views(self.items@).len() && views(self.items@)[i] == x;
                    assert(views(before)[i] == x);
                }
            }
            assert(self@ =~= old(self)@.insert(item@));
        }
    }

    /// Whether the set holds a text.
    pub fn contains(&self, item: &str) -> (r: bool)
        ensures
            r == self@.contains(item@),
    {
        has_text(&self.items, item)
    }
}

} // verus!
