//! The flat store of named numeric parameters that feeds every model:
//! ordered entries of key, display title, value and tooltip, with unique
//! keys, looked up by position or by key.
use crate::fixed::Fx;
use crate::NumericalError;
use vstd::prelude::*;

verus! {

/// One named parameter: a lookup key, a display title, the numeric value,
/// and a tooltip.
pub struct Param {
    /// The unique lookup key.
    pub key: String,
    /// The name a table shows for this entry.
    pub title: String,
    /// The numeric value.
    pub value: Fx,
    /// The explanatory text a table shows on hover.
    pub tooltip: String,
}

/// An ordered list of named parameters with unique keys.  Insertion order
/// is kept; it matters only for display, never for computation.
pub struct ParamList {
    /// The entries, in insertion order.
    pub params: Vec<Param>,
}

impl ParamList {
    /// The key of the entry at `i`.
    pub open spec fn key_at(self, i: int) -> Seq<char> {
        self.params@[i].key@
    }

    /// All keys are pairwise distinct.
    pub open spec fn wf(self) -> bool {
        forall|i: int, j: int|
            0 <= i < j < self.params@.len() ==> self.key_at(i) != self.key_at(j)
    }

    /// Some entry carries the key `k`.
    pub open spec fn has_key(self, k: Seq<char>) -> bool {
        exists|i: int| 0 <= i < self.params@.len() && self.key_at(i) == k
    }

    /// The position of the entry carrying the key `k`.
    pub open spec fn index_of(self, k: Seq<char>) -> int {
        choose|i: int| 0 <= i < self.params@.len() && #[trigger] self.key_at(i) == k
    }

    /// The value stored under the key `k`.
    pub open spec fn value_of(self, k: Seq<char>) -> Fx {
        self.params@[self.index_of(k)].value
    }

    /// An empty list.
    pub fn new() -> (r: ParamList)
        ensures
            r.params@.len() == 0,
            r.wf(),
    {
        ParamList { params: Vec::new() }
    }

    /// Append an entry under a key not yet present.
    pub fn push(&mut self, key: &str, title: &str, value: Fx, tooltip: &str)
        requires
            old(self).wf(),
            !old(self).has_key(key@),
        ensures
            final(self).wf(),
            final(self).params@.len() == old(self).params@.len() + 1,
            final(self).params@[old(self).params@.len() as int].key@ == key@,
            final(self).params@[old(self).params@.len() as int].title@ == title@,
            final(self).params@[old(self).params@.len() as int].value == value,
            final(self).params@[old(self).params@.len() as int].tooltip@ == tooltip@,
            forall|i: int|
                0 <= i < old(self).params@.len() ==> final(self).params@[i] == old(
                    self,
                ).params@[i],
    {
        let p = Param {
            key: key.to_owned(),
            title: title.to_owned(),
            value,
            tooltip: tooltip.to_owned(),
        };
        self.params.push(p);
        proof {
            assert forall|i: int, j: int|
                0 <= i < j < self.params@.len() implies self.key_at(i) != self.key_at(j) by {
                if j < self.params@.len() - 1 {
                    assert(old(self).key_at(i) != old(self).key_at(j));
                } else {
                    assert(!old(self).has_key(key@));
                    assert(old(self).key_at(i) != key@);
                }
            }
        }
    }

    /// The value of the entry at position `id`.
    pub fn get(&self, id: usize) -> (r: Fx)
        requires
            id < self.params@.len(),
        ensures
            r == self.params@[id as int].value,
    {
        self.params[id].value
    }

    /// Replace the value of the entry at position `id`; keys, titles and
    /// tooltips stay as they were.
    pub fn set(&mut self, id: usize, val: Fx)
        requires
            id < old(self).params@.len(),
            old(self).wf(),
        ensures
            final(self).wf(),
            final(self).params@.len() == old(self).params@.len(),
            final(self).params@[id as int].value == val,
            final(self).params@[id as int].key@ == old(self).params@[id as int].key@,
            final(self).params@[id as int].title@ == old(self).params@[id as int].title@,
            final(self).params@[id as int].tooltip@ == old(self).params@[id as int].tooltip@,
            forall|i: int|
                0 <= i < old(self).params@.len() && i != id ==> final(self).params@[i] == old(
                    self,
                ).params@[i],
    {
        let title = self.params[id].title.clone();
        let key = self.params[id].key.clone();
        let tooltip = self.params[id].tooltip.clone();
        self.params.set(id, Param { key, title, value: val, tooltip });
        proof {
            assert forall|i: int, j: int|
                0 <= i < j < self.params@.len() implies self.key_at(i) != self.key_at(j) by {
                assert(old(self).key_at(i) != old(self).key_at(j));
            }
        }
    }

    /// Look a value up by key: the stored value when the key is present,
    /// `ParameterNotFound` when it is not.
    pub fn get_by_key(&self, key: &String) -> (r: Result<Fx, NumericalError>)
        requires
            self.wf(),
        ensures
            match r {
                Ok(v) => self.has_key(key@) && v == self.value_of(key@),
                Err(e) => e == NumericalError::ParameterNotFound && !self.has_key(key@),
            },
    {
        let n = self.params.len();
        let mut i: usize = 0;
        while i < n
            invariant
                0 <= i <= n,
                n == self.params@.len(),
                self.wf(),
                forall|j: int| 0 <= j < i ==> self.key_at(j) != key@,
            decreases n - i,
        {
            if self.params[i].key == *key {
                proof {
                    assert(self.key_at(i as int) == key@);
                    let w = self.index_of(key@);
                    assert(0 <= w < self.params@.len() && self.key_at(w) == key@);
                    if w != i as int {
                        if w < i as int {
                            assert(self.key_at(w) != self.key_at(i as int));
                        } else {
                            assert(self.key_at(i as int) != self.key_at(w));
                        }
                    }
                }
                return Ok(self.params[i].value);
            }
            i = i + 1;
        }
        Err(NumericalError::ParameterNotFound)
    }

    /// The display title of the entry at position `id`.
    pub fn get_title(&self, id: usize) -> (r: String)
        requires
            id < self.params@.len(),
        ensures
            r@ == self.params@[id as int].title@,
    {
        self.params[id].title.clone()
    }

    /// The tooltip of the entry at position `id`.
    pub fn get_tooltip(&self, id: usize) -> (r: String)
        requires
            id < self.params@.len(),
        ensures
            r@ == self.params@[id as int].tooltip@,
    {
        self.params[id].tooltip.clone()
    }

    /// The number of entries.
    pub fn len(&self) -> (r: usize)
        ensures
            r == self.params@.len(),
    {
        self.params.len()
    }

    /// Replace the whole parameter set with a copy of another list.
    pub fn copy_from(&mut self, other: &ParamList)
        ensures
            final(self).params@ =~= other.params@,
    {
        let n = other.params.len();
        let mut fresh: Vec<Param> = Vec::new();
        let mut i: usize = 0;
        while i < n
            invariant
                0 <= i <= n,
                n == other.params@.len(),
                fresh@.len() == i,
                forall|j: int| 0 <= j < i ==> fresh@[j] == other.params@[j],
            decreases n - i,
        {
            let p = Param {
                key: other.params[i].key.clone(),
                title: other.params[i].title.clone(),
                value: other.params[i].value,
                tooltip: other.params[i].tooltip.clone(),
            };
            fresh.push(p);
            i = i + 1;
        }
        self.params = fresh;
    }

    /// A deep copy of the list.
    pub fn duplicate(&self) -> (r: ParamList)
        ensures
            r.params@ =~= self.params@,
    {
        let mut r = ParamList::new();
        r.copy_from(self);
        r
    }
}

/// Something that owns a parameter list which can be replaced from, and
/// copied out to, another list.
pub trait Parametrized: Sized {
    /// The entries of the owned parameter list.
    spec fn params_view(&self) -> Seq<Param>;

    /// Everything outside the parameter list is untouched.
    spec fn same_but_params(&self, other: &Self) -> bool;

    /// Replace the owned parameters with a copy of `other`.
    fn copy_params_from(&mut self, other: &ParamList)
        ensures
            final(self).params_view() =~= other.params@,
            final(self).same_but_params(old(self)),
    ;

    /// A copy of the owned parameters.
    fn get_params(&self) -> (r: ParamList)
        ensures
            r.params@ =~= self.params_view(),
    ;
}

} // verus!
