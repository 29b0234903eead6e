use vstd::prelude::*;
use vstd::string::StringExecFns;
use core::hash::Hash;
use std::collections::HashMap;
use vstd::std_specs::hash::obeys_key_model;

verus! {

broadcast use vstd::std_specs::hash::group_hash_axioms;

/// A growable list: a thin, verified facade over a vector.
#[derive(Debug)]
pub struct AetherList<T> {
    items: Vec<T>,
}

impl<T> View for AetherList<T> {
    type V = Seq<T>;

    closed spec fn view(&self) -> Seq<T> {
        self.items@
    }
}

impl<T> AetherList<T> {
    pub fn new() -> (r: AetherList<T>)
        ensures
            r@ == Seq::<T>::empty(),
    {
        let items: Vec<T> = Vec::new();
        proof {
            assert(items@ =~= Seq::<T>::empty());
        }
        AetherList { items }
    }

    /// Append an item at the end.
    pub fn push(&mut self, item: T)
        ensures
            final(self)@ == old(self)@.push(item),
    {
        self.items.push(item);
    }

    /// Remove and return the last item, if any.
    pub fn pop(&mut self) -> (r: Option<T>)
        ensures
            old(self)@.len() == 0 ==> r is None && final(self)@ == old(self)@,
            old(self)@.len() > 0 ==> r == Some(old(self)@.last()) && final(self)@ == old(
                self,
            )@.drop_last(),
    {
        self.items.pop()
    }

    pub fn len(&self) -> (r: usize)
        ensures
            r == self@.len(),
    {
        self.items.len()
    }

    pub fn is_empty(&self) -> (r: bool)
        ensures
            r == (self@.len() == 0),
    {
        self.items.len() == 0
    }

    /// Drop every item.
    pub fn clear(&mut self)
        ensures
            final(self)@ == Seq::<T>::empty(),
    {
        self.items.clear();
        proof {
            assert(self.items@ =~= Seq::<T>::empty());
        }
    }
}

/// The bracketed, comma-separated rendering of the given pieces:
/// `[a, b, c]`.
pub open spec fn spec_render_list(parts: Seq<Seq<char>>) -> Seq<char> {
    "["@ + spec_join_comma(parts) + "]"@
}

/// The pieces joined with `, `.
pub open spec fn spec_join_comma(parts: Seq<Seq<char>>) -> Seq<char>
    decreases parts.len(),
{
    if parts.len() == 0 {
        Seq::empty()
    } else if parts.len() == 1 {
        parts[0]
    } else {
        parts[0] + ", "@ + spec_join_comma(parts.drop_first())
    }
}

/// Appending a piece to a nonempty join adds one separator and the piece.
proof fn lemma_join_push(xs: Seq<Seq<char>>, x: Seq<char>)
    requires
        xs.len() >= 1,
    ensures
        spec_join_comma(xs.push(x)) == spec_join_comma(xs) + ", "@ + x,
    decreases xs.len(),
{
    if xs.len() == 1 {
        assert(xs.push(x)[0] == xs[0]);
        assert(xs.push(x).drop_first() =~= seq![x]);
        assert(spec_join_comma(seq![x]) == x);
    } else {
        assert(xs.push(x)[0] == xs[0]);
        assert(xs.push(x).drop_first() =~= xs.drop_first().push(x));
        lemma_join_push(xs.drop_first(), x);
        assert(xs[0] + ", "@ + (spec_join_comma(xs.drop_first()) + ", "@ + x) =~= (xs[0] + ", "@
            + spec_join_comma(xs.drop_first())) + ", "@ + x);
    }
}

/// `[a, b, c]` as a string, built from the given pieces.
pub fn render_list(parts: &Vec<String>) -> (r: String)
    ensures
        r@ == spec_render_list(Seq::new(parts@.len(), |i: int| parts@[i]@)),
{
    let ghost pv = Seq::new(parts@.len(), |i: int| parts@[i]@);
    let mut s = String::from_str("[");
    let mut i: usize = 0;
    while i < parts.len()
        invariant
            i <= parts@.len(),
            pv == Seq::new(parts@.len(), |j: int| parts@[j]@),
            pv.len() == parts@.len(),
            i == 0 ==> s@ == "["@,
            i > 0 ==> s@ == "["@ + spec_join_comma(pv.take(i as int)),
        decreases parts@.len() - i,
    {
        let ghost pre = s@;
        if i > 0 {
            s.append(", ");
        }
        s.append(parts[i].as_str());
        proof {
            if i == 0 {
                assert(pv.take(1)[0] == pv[0]);
                assert(spec_join_comma(pv.take(1)) == pv[0]);
                assert(s@ =~= "["@ + spec_join_comma(pv.take(1)));
            } else {
                lemma_join_push(pv.take(i as int), pv[i as int]);
                assert(pv.take(i as int).push(pv[i as int]) =~= pv.take(i as int + 1));
                assert(s@ =~= "["@ + (spec_join_comma(pv.take(i as int)) + ", "@ + pv[
                    i as int
                ]));
            }
        }
        i = i + 1;
    }
    proof {
        if parts@.len() == 0 {
            assert(spec_join_comma(pv) == Seq::<char>::empty());
        } else {
            assert(pv.take(parts@.len() as int) =~= pv);
        }
    }
    s.append("]");
    proof {
        assert(s@ =~= spec_render_list(pv));
    }
    s
}

impl<T: core::fmt::Display> AetherList<T> {
    /// The list rendered as `[a, b, c]`, each item by its display form.
    pub fn to_string(&self) -> (r: String)
        ensures
            exists|parts: Seq<String>|
                parts.len() == self@.len() && r@ == spec_render_list(
                    Seq::new(parts.len(), |i: int| parts[i]@),
                ),
    {
        let mut parts: Vec<String> = Vec::new();
        let mut i: usize = 0;
        while i < self.items.len()
            invariant
                i <= self.items@.len(),
                parts@.len() == i,
            decreases self.items@.len() - i,
        {
            parts.push(self.items[i].to_string());
            i = i + 1;
        }
        render_list(&parts)
    }
}

/// A keyed map: a thin, verified facade over a hash map. The contracts hold
/// for key types whose equality and hashes behave as the hash table assumes,
/// which covers the primitive types.
#[derive(Debug)]
pub struct AetherMap<K, V> {
    items: HashMap<K, V>,
}

impl<K, V> View for AetherMap<K, V> {
    type V = Map<K, V>;

    closed spec fn view(&self) -> Map<K, V> {
        self.items@
    }
}

impl<K: Hash + Eq, V> AetherMap<K, V> {
    pub fn new() -> (r: AetherMap<K, V>)
        ensures
            r@ == Map::<K, V>::empty(),
    {
        AetherMap { items: HashMap::new() }
    }

    /// Bind a key to a value, returning the value it replaced, if any.
    pub fn insert(&mut self, key: K, value: V) -> (r: Option<V>)
        ensures
            obeys_key_model::<K>() ==> {
                &&& final(self)@ == old(self)@.insert(key, value)
                &&& match r {
                    Some(v) => old(self)@.contains_key(key) && v == old(self)@[key],
                    None => !old(self)@.contains_key(key),
                }
            },
    {
        self.items.insert(key, value)
    }

    /// The value bound to the key, if any.
    pub fn get(&self, key: &K) -> (r: Option<&V>)
        ensures
            obeys_key_model::<K>() ==> match r {
                Some(v) => self@.contains_key(*key) && *v == self@[*key],
                None => !self@.contains_key(*key),
            },
    {
        self.items.get(key)
    }

    /// Unbind the key, returning the value it was bound to, if any.
    pub fn remove(&mut self, key: &K) -> (r: Option<V>)
        ensures
            obeys_key_model::<K>() ==> {
                &&& final(self)@ == old(self)@.remove(*key)
                &&& match r {
                    Some(v) => old(self)@.contains_key(*key) && v == old(self)@[*key],
                    None => !old(self)@.contains_key(*key),
                }
            },
    {
        self.items.remove(key)
    }

    pub fn contains_key(&self, key: &K) -> (r: bool)
        ensures
            obeys_key_model::<K>() ==> r == self@.contains_key(*key),
    {
        self.items.contains_key(key)
    }

    pub fn len(&self) -> (r: usize)
        ensures
            obeys_key_model::<K>() ==> r == self@.len(),
    {
        self.items.len()
    }

    pub fn is_empty(&self) -> (r: bool)
        ensures
            r == self@.is_empty(),
    {
        self.items.is_empty()
    }

    /// Drop every binding.
    pub fn clear(&mut self)
        ensures
            final(self)@ == Map::<K, V>::empty(),
    {
        self.items.clear();
    }
}

} // verus!
