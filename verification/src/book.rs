//! The per-product book of a matching engine: product names, each with the
//! state the engine keeps for it, in the order the products were added.
use vstd::prelude::*;
use vstd::string::*;

verus! {

/// Scanning the entries from `i` on, the index of the first one named `name`.
pub open spec fn index_from<M>(entries: Seq<(Seq<char>, M)>, name: Seq<char>, i: int) -> Option<int>
    decreases entries.len() - i,
{
    if i < 0 || i >= entries.len() {
        None
    } else if entries[i].0 == name {
        Some(i)
    } else {
        index_from(entries, name, i + 1)
    }
}

/// The index of the first entry named `name`.
pub open spec fn index_of<M>(entries: Seq<(Seq<char>, M)>, name: Seq<char>) -> Option<int> {
    index_from(entries, name, 0)
}

/// The state kept for `name`, if the book lists it.
pub open spec fn lookup<M>(entries: Seq<(Seq<char>, M)>, name: Seq<char>) -> Option<M> {
    match index_of(entries, name) {
        Some(i) => Some(entries[i].1),
        None => None,
    }
}

/// The entries with every entry named `name` left out, others in order.
pub open spec fn without_name<M>(entries: Seq<(Seq<char>, M)>, name: Seq<char>) -> Seq<(Seq<char>, M)>
    decreases entries.len(),
{
    if entries.len() == 0 {
        entries
    } else {
        let rest = without_name(entries.drop_last(), name);
        if entries.last().0 == name {
            rest
        } else {
            rest.push(entries.last())
        }
    }
}

/// No name occurs twice.
pub open spec fn unique_names<M>(entries: Seq<(Seq<char>, M)>) -> bool {
    forall|a: int, b: int|
        0 <= a < entries.len() && 0 <= b < entries.len() && a != b ==> entries[a].0 != entries[b].0
}

/// The entries after `insert(name, m)`: the state of a listed name is
/// replaced in place, an unlisted name is added at the end.
pub open spec fn inserted<M>(entries: Seq<(Seq<char>, M)>, name: Seq<char>, m: M) -> Seq<(Seq<char>, M)> {
    match index_of(entries, name) {
        Some(i) => entries.update(i, (entries[i].0, m)),
        None => entries.push((name, m)),
    }
}

/// Products by name, each with a state of type `M`.
#[derive(Debug)]
pub struct ProductBook<M> {
    entries: Vec<(String, M)>,
}

impl<M> View for ProductBook<M> {
    type V = Seq<(Seq<char>, M)>;

    closed spec fn view(&self) -> Seq<(Seq<char>, M)> {
        self.entries@.map_values(|e: (String, M)| (e.0@, e.1))
    }
}

impl<M> ProductBook<M> {
    /// An empty book.
    pub fn new() -> (r: ProductBook<M>)
        ensures
            r@ == Seq::<(Seq<char>, M)>::empty(),
    {
        let r = ProductBook { entries: Vec::new() };
        assert(r@ =~= Seq::<(Seq<char>, M)>::empty());
        r
    }

    /// Number of products.
    pub fn len(&self) -> (r: usize)
        ensures
            r == self@.len(),
    {
        self.entries.len()
    }

    /// Name of the product at index `i`.
    pub fn name(&self, i: usize) -> (r: &String)
        requires
            i < self@.len(),
        ensures
            r@ == self@[i as int].0,
    {
        &self.entries[i].0
    }

    /// State of the product at index `i`.
    pub fn state(&self, i: usize) -> (r: &M)
        requires
            i < self@.len(),
        ensures
            *r == self@[i as int].1,
    {
        &self.entries[i].1
    }

    /// The state of the product at index `i`, to change in place.
    pub fn state_mut(&mut self, i: usize) -> (r: &mut M)
        requires
            i < old(self)@.len(),
        ensures
            *r == old(self)@[i as int].1,
            final(self)@ == old(self)@.update(i as int, (old(self)@[i as int].0, *final(r))),
    {
        &mut self.entries[i].1
    }

    /// Index of the product named `name`, if listed.
    pub fn find(&self, name: &str) -> (r: Option<usize>)
        ensures
            match r {
                Some(i) => index_of(self@, name@) == Some(i as int),
                None => index_of(self@, name@) is None,
            },
    {
        let key = String::from_str(name);
        let mut i: usize = 0;
        while i < self.entries.len()
            invariant
                i <= self.entries.len(),
                key@ == name@,
                index_of(self@, name@) == index_from(self@, name@, i as int),
            decreases self.entries.len() - i,
        {
            if self.entries[i].0 == key {
                return Some(i);
            }
            i = i + 1;
        }
        None
    }

    /// Sets the state of product `name`: a listed product keeps its place and
    /// gets the new state, an unlisted one is added at the end.
    pub fn insert(&mut self, name: &str, m: M)
        ensures
            final(self)@ == inserted(old(self)@, name@, m),
    {
        proof {
            lemma_index_from(self@, name@, 0);
        }
        match self.find(name) {
            Some(i) => {
                let (n, _) = self.entries.remove(i);
                self.entries.insert(i, (n, m));
                assert(self@ =~= inserted(old(self)@, name@, m));
            },
            None => {
                self.entries.push((String::from_str(name), m));
                assert(self@ =~= inserted(old(self)@, name@, m));
            },
        }
    }

    /// Removes every product named `name`, keeping the others in order.
    pub fn remove(&mut self, name: &str)
        ensures
            final(self)@ == without_name(old(self)@, name@),
    {
        let key = String::from_str(name);
        let ghost old_view = self@;
        let ghost mut j: int = 0;
        let mut i: usize = 0;
        while i < self.entries.len()
            invariant
                key@ == name@,
                0 <= j <= old_view.len(),
                i <= self.entries.len(),
                i == without_name(old_view.take(j), name@).len(),
                self@ =~= without_name(old_view.take(j), name@) + old_view.skip(j),
            decreases self.entries.len() - i,
        {
            let ghost w = without_name(old_view.take(j), name@);
            proof {
                assert(old_view.take(j + 1).drop_last() =~= old_view.take(j));
                assert(old_view.take(j + 1).last() == old_view[j]);
                assert(self@[i as int] == old_view[j]);
            }
            if self.entries[i].0 == key {
                let ghost before = self@;
                self.entries.remove(i);
                proof {
                    assert(self@ =~= before.remove(i as int));
                    assert(without_name(old_view.take(j + 1), name@) == w);
                    assert(self@ =~= w + old_view.skip(j + 1));
                }
            } else {
                i = i + 1;
                proof {
                    assert(without_name(old_view.take(j + 1), name@) == w.push(old_view[j]));
                    assert(self@ =~= w.push(old_view[j]) + old_view.skip(j + 1));
                }
            }
            proof {
                j = j + 1;
            }
        }
        proof {
            assert(old_view.take(j) =~= old_view);
        }
    }
}


/// What [`index_from`] finds: the first entry from `k` on named `name`, or
/// none when no entry from `k` on is.
pub proof fn lemma_index_from<M>(e: Seq<(Seq<char>, M)>, name: Seq<char>, k: int)
    requires
        0 <= k,
    ensures
        match index_from(e, name, k) {
            Some(i) => {
                &&& k <= i < e.len()
                &&& e[i].0 == name
                &&& forall|j: int| k <= j < i ==> e[j].0 != name
            },
            None => forall|j: int| k <= j < e.len() ==> e[j].0 != name,
        },
    decreases e.len() - k,
{
    if k < e.len() && e[k].0 != name {
        lemma_index_from(e, name, k + 1);
    }
}

/// The first entry named `name` is at `i` exactly when the entry at `i` has
/// that name and none before it does.
proof fn lemma_index_of_is<M>(e: Seq<(Seq<char>, M)>, name: Seq<char>, i: int)
    requires
        0 <= i < e.len(),
        e[i].0 == name,
        forall|j: int| 0 <= j < i ==> e[j].0 != name,
    ensures
        index_of(e, name) == Some(i),
{
    lemma_index_from(e, name, 0);
}

/// No entry is named `name` exactly when the search finds none.
proof fn lemma_index_of_none<M>(e: Seq<(Seq<char>, M)>, name: Seq<char>)
    requires
        forall|j: int| 0 <= j < e.len() ==> e[j].0 != name,
    ensures
        index_of(e, name) is None,
{
    lemma_index_from(e, name, 0);
}

/// Appending an entry leaves every earlier find as it was, and makes the new
/// entry the find for its own name when nothing before had that name.
proof fn lemma_lookup_push<M>(e: Seq<(Seq<char>, M)>, y: (Seq<char>, M), x: Seq<char>)
    ensures
        lookup(e.push(y), x) == (if lookup(e, x) is Some {
            lookup(e, x)
        } else if y.0 == x {
            Some(y.1)
        } else {
            None
        }),
{
    let f = e.push(y);
    lemma_index_from(e, x, 0);
    match index_of(e, x) {
        Some(p) => {
            lemma_index_of_is(f, x, p);
        },
        None => {
            if y.0 == x {
                lemma_index_of_is(f, x, e.len() as int);
            } else {
                lemma_index_of_none(f, x);
            }
        },
    }
}

/// After `insert(name, m)` the book gives `m` for `name` and what it gave
/// before for every other name.
pub proof fn lemma_insert_lookup<M>(e: Seq<(Seq<char>, M)>, name: Seq<char>, m: M, x: Seq<char>)
    ensures
        lookup(inserted(e, name, m), x) == (if x == name {
            Some(m)
        } else {
            lookup(e, x)
        }),
{
    lemma_index_from(e, name, 0);
    lemma_index_from(e, x, 0);
    match index_of(e, name) {
        Some(i) => {
            let f = inserted(e, name, m);
            match index_of(e, x) {
                Some(p) => {
                    lemma_index_of_is(f, x, p);
                },
                None => {
                    lemma_index_of_none(f, x);
                },
            }
        },
        None => {
            lemma_lookup_push(e, (name, m), x);
        },
    }
}

/// Inserting never lists a name twice in a book that did not.
pub proof fn lemma_insert_unique<M>(e: Seq<(Seq<char>, M)>, name: Seq<char>, m: M)
    requires
        unique_names(e),
    ensures
        unique_names(inserted(e, name, m)),
{
    lemma_index_from(e, name, 0);
}

/// The entries left by [`without_name`] are entries of the given sequence, none named `name`.
proof fn lemma_without_name_from<M>(e: Seq<(Seq<char>, M)>, name: Seq<char>)
    ensures
        forall|k: int|
            0 <= k < without_name(e, name).len() ==> exists|j: int|
                0 <= j < e.len() && #[trigger] without_name(e, name)[k] == e[j] && e[j].0 != name,
    decreases e.len(),
{
    if e.len() > 0 {
        let p = e.drop_last();
        lemma_without_name_from(p, name);
        let w = without_name(e, name);
        let wp = without_name(p, name);
        assert forall|k: int| 0 <= k < w.len() implies exists|j: int|
            0 <= j < e.len() && #[trigger] w[k] == e[j] && e[j].0 != name by {
            if k < wp.len() {
                let j: int = choose|j: int| 0 <= j < p.len() && #[trigger] wp[k] == p[j] && p[j].0 != name;
                assert(w[k] == e[j]);
            } else {
                assert(w[k] == e[e.len() - 1]);
            }
        }
    }
}

/// After `remove(name)` the book gives nothing for `name` and what it gave
/// before for every other name.
pub proof fn lemma_remove_lookup<M>(e: Seq<(Seq<char>, M)>, name: Seq<char>, x: Seq<char>)
    ensures
        lookup(without_name(e, name), x) == (if x == name {
            None
        } else {
            lookup(e, x)
        }),
    decreases e.len(),
{
    if e.len() > 0 {
        let p = e.drop_last();
        let y = e.last();
        assert(e =~= p.push(y));
        lemma_remove_lookup(p, name, x);
        lemma_lookup_push(p, y, x);
        if y.0 != name {
            lemma_lookup_push(without_name(p, name), y, x);
        }
    } else {
        lemma_index_of_none(e, x);
    }
}

/// Removing never lists a name twice in a book that did not.
pub proof fn lemma_remove_unique<M>(e: Seq<(Seq<char>, M)>, name: Seq<char>)
    requires
        unique_names(e),
    ensures
        unique_names(without_name(e, name)),
    decreases e.len(),
{
    if e.len() > 0 {
        let p = e.drop_last();
        let y = e.last();
        assert(unique_names(p));
        lemma_remove_unique(p, name);
        lemma_without_name_from(p, name);
        let wp = without_name(p, name);
        if y.0 != name {
            let w = without_name(e, name);
            assert forall|a: int, b: int|
                0 <= a < w.len() && 0 <= b < w.len() && a != b implies w[a].0 != w[b].0 by {
                if a < wp.len() && b < wp.len() {
                    assert(w[a] == wp[a] && w[b] == wp[b]);
                } else if a < wp.len() {
                    let j: int = choose|j: int| 0 <= j < p.len() && #[trigger] wp[a] == p[j] && p[j].0 != name;
                    assert(w[a] == p[j]);
                    assert(e[j] == p[j]);
                } else {
                    let j: int = choose|j: int| 0 <= j < p.len() && #[trigger] wp[b] == p[j] && p[j].0 != name;
                    assert(w[b] == p[j]);
                    assert(e[j] == p[j]);
                }
            }
        }
    }
}

} // verus!
