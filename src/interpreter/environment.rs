use crate::interpreter::{Val, Value};
use crate::Identifier;
use std::rc::Rc;
use vstd::prelude::*;

verus! {

/// The bindings held in `s`, later entries taking precedence.
pub open spec fn map_of(s: Seq<(Identifier, Rc<Value>)>) -> Map<Seq<char>, Val>
    decreases s.len(),
{
    if s.len() == 0 {
        Map::empty()
    } else {
        map_of(s.drop_last()).insert(s.last().0@, (*s.last().1)@)
    }
}

/// No two entries of `s` bind the same name.
pub open spec fn keys_unique(s: Seq<(Identifier, Rc<Value>)>) -> bool {
    forall|i: int, j: int| 0 <= i < j < s.len() ==> s[i].0@ != s[j].0@
}

/// A name is bound exactly where an entry holds it, to that entry's value.
proof fn lemma_map_of_lookup(s: Seq<(Identifier, Rc<Value>)>, k: Seq<char>)
    requires
        keys_unique(s),
    ensures
        map_of(s).contains_key(k) <==> exists|i: int| 0 <= i < s.len() && s[i].0@ == k,
        forall|i: int|
            0 <= i < s.len() && s[i].0@ == k ==> map_of(s)[k] == (*s[i].1)@,
    decreases s.len(),
{
    if s.len() > 0 {
        let t = s.drop_last();
        lemma_map_of_lookup(t, k);
        if map_of(s).contains_key(k) && s.last().0@ != k {
            let i = choose|i: int| 0 <= i < t.len() && t[i].0@ == k;
            assert(s[i].0@ == k);
        }
        if exists|i: int| 0 <= i < s.len() && s[i].0@ == k {
            let i = choose|i: int| 0 <= i < s.len() && s[i].0@ == k;
            if i < s.len() - 1 {
                assert(t[i].0@ == k);
            }
        }
        assert forall|i: int| 0 <= i < s.len() && s[i].0@ == k implies map_of(s)[k] == (*s[i].1)@ by {
            if i < s.len() - 1 {
                assert(t[i] == s[i]);
            }
        }
        assert forall|i: int| 0 <= i < t.len() && t[i].0@ == k implies s[i].0@ == k by {
        }
    }
}

/// Replacing the value of the entry at `i` rebinds its name.
proof fn lemma_map_of_update(s: Seq<(Identifier, Rc<Value>)>, i: int, v: Rc<Value>)
    requires
        keys_unique(s),
        0 <= i < s.len(),
    ensures
        map_of(s.update(i, (s[i].0, v))) == map_of(s).insert(s[i].0@, (*v)@),
        keys_unique(s.update(i, (s[i].0, v))),
    decreases s.len(),
{
    let u = s.update(i, (s[i].0, v));
    if i == s.len() - 1 {
        assert(u.drop_last() =~= s.drop_last());
        assert(map_of(u) =~= map_of(s).insert(s[i].0@, (*v)@));
    } else {
        let t = s.drop_last();
        assert(u.drop_last() =~= t.update(i, (s[i].0, v)));
        lemma_map_of_update(t, i, v);
        assert(map_of(u) =~= map_of(s).insert(s[i].0@, (*v)@));
    }
}

/// Removing the entry at `i` unbinds its name.
proof fn lemma_map_of_remove(s: Seq<(Identifier, Rc<Value>)>, i: int)
    requires
        keys_unique(s),
        0 <= i < s.len(),
    ensures
        map_of(s.remove(i)) == map_of(s).remove(s[i].0@),
        keys_unique(s.remove(i)),
    decreases s.len(),
{
    let r = s.remove(i);
    let t = s.drop_last();
    if i == s.len() - 1 {
        assert(r =~= t);
        lemma_map_of_lookup(t, s[i].0@);
        assert(map_of(r) =~= map_of(s).remove(s[i].0@));
    } else {
        assert(r.drop_last() =~= t.remove(i));
        lemma_map_of_remove(t, i);
        assert(map_of(r) =~= map_of(s).remove(s[i].0@));
    }
}

/// The `Environment` contains all variable and function bindings.
pub struct Environment {
    /// Each name with its value; no name appears twice.
    env: Vec<(Identifier, Rc<Value>)>,
}

impl View for Environment {
    type V = Map<Seq<char>, Val>;

    closed spec fn view(&self) -> Map<Seq<char>, Val> {
        map_of(self.env@)
    }
}

impl Environment {
    /// No name is bound twice.
    pub closed spec fn wf(&self) -> bool {
        keys_unique(self.env@)
    }

    /// Create a new, empty `Environment`.
    pub fn new() -> (r: Environment)
        ensures
            r.wf(),
            r@ == Map::<Seq<char>, Val>::empty(),
    {
        Environment { env: Vec::new() }
    }

    /// The index of the entry for `key`, if any.
    fn find(&self, key: &Identifier) -> (r: Option<usize>)
        requires
            self.wf(),
        ensures
            match r {
                Some(i) => i < self.env@.len() && self.env@[i as int].0@ == key@,
                None => forall|i: int| 0 <= i < self.env@.len() ==> self.env@[i].0@ != key@,
            },
    {
        let mut i: usize = 0;
        while i < self.env.len()
            invariant
                0 <= i <= self.env@.len(),
                forall|j: int| 0 <= j < i ==> self.env@[j].0@ != key@,
            decreases self.env.len() - i,
        {
            if self.env[i].0 == *key {
                return Some(i);
            }
            i = i + 1;
        }
        None
    }

    /// Get a reference to a variable from the `Environment`.
    pub fn get(&self, key: &Identifier) -> (r: Option<Rc<Value>>)
        requires
            self.wf(),
        ensures
            r is Some <==> self@.contains_key(key@),
            r is Some ==> (*r->Some_0)@ == self@[key@],
    {
        proof {
            lemma_map_of_lookup(self.env@, key@);
        }
        match self.find(key) {
            Some(i) => Some(Rc::clone(&self.env[i].1)),
            None => None,
        }
    }

    /// Take a value from the `Environment`, getting ownership of the value and removing the
    /// variable from the `Environment`.
    pub fn take(&mut self, key: &Identifier) -> (r: Option<Rc<Value>>)
        requires
            old(self).wf(),
        ensures
            final(self).wf(),
            final(self)@ == old(self)@.remove(key@),
            r is Some <==> old(self)@.contains_key(key@),
            r is Some ==> (*r->Some_0)@ == old(self)@[key@],
    {
        proof {
            lemma_map_of_lookup(self.env@, key@);
        }
        match self.find(key) {
            Some(i) => {
                proof {
                    lemma_map_of_remove(self.env@, i as int);
                }
                let (_, value) = self.env.remove(i);
                Some(value)
            },
            None => {
                assert(map_of(self.env@) =~= map_of(self.env@).remove(key@));
                None
            },
        }
    }

    /// Set a variable in the `Environment` and returns the previous value of that variable, if
    /// any.
    pub fn set(&mut self, key: Identifier, value: Rc<Value>) -> (r: Option<Rc<Value>>)
        requires
            old(self).wf(),
        ensures
            final(self).wf(),
            final(self)@ == old(self)@.insert(key@, (*value)@),
            r is Some <==> old(self)@.contains_key(key@),
            r is Some ==> (*r->Some_0)@ == old(self)@[key@],
    {
        proof {
            lemma_map_of_lookup(self.env@, key@);
        }
        match self.find(&key) {
            Some(i) => {
                proof {
                    lemma_map_of_update(self.env@, i as int, value);
                }
                let name = self.env[i].0.clone();
                let previous = Rc::clone(&self.env[i].1);
                self.env.set(i, (name, value));
                Some(previous)
            },
            None => {
                let ghost old_env = self.env@;
                self.env.push((key, value));
                proof {
                    assert(self.env@.drop_last() =~= old_env);
                }
                None
            },
        }
    }
}

} // verus!
