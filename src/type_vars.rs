//! Ordered bindings from generic parameter names to type references.
use crate::model::{insert_entry, TypeRefModel};
use crate::string_name::StringName;
use crate::string_reference::StringTypeReference;
use indexmap::IndexMap;
use vstd::prelude::*;

verus! {

/// Insertion-ordered map from parameter name to the reference bound to it.
/// Keys are held as `String`, whose equality and hash are those of its bytes.
#[verifier::external_body]
#[derive(Debug)]
pub struct TypeVars {
    map: IndexMap<String, StringTypeReference>,
}

/// The bindings of a map, in its iteration order.
pub uninterp spec fn type_var_entries(m: TypeVars) -> Seq<(Seq<char>, TypeRefModel)>;

impl View for TypeVars {
    type V = Seq<(Seq<char>, TypeRefModel)>;

    open spec fn view(&self) -> Seq<(Seq<char>, TypeRefModel)> {
        type_var_entries(*self)
    }
}

impl TypeVars {
    /// Relies on `IndexMap::new`: the new map is empty.
    #[verifier::external_body]
    fn empty_map() -> (r: TypeVars)
        ensures
            type_var_entries(r) == Seq::<(Seq<char>, TypeRefModel)>::empty(),
    {
        TypeVars { map: IndexMap::new() }
    }

    /// Relies on `IndexMap::insert`: an equal key already present keeps its
    /// place and takes the new value; otherwise the pair goes last.
    #[verifier::external_body]
    fn insert_raw(&mut self, k: String, v: StringTypeReference)
        ensures
            type_var_entries(*final(self)) == insert_entry(type_var_entries(*old(self)), k@, v@),
    {
        self.map.insert(k, v);
    }

    /// Relies on `IndexMap::len`: the number of pairs.
    #[verifier::external_body]
    fn len_raw(&self) -> (r: usize)
        ensures
            r == type_var_entries(*self).len(),
    {
        self.map.len()
    }

    /// Relies on `IndexMap::get_index`: the pair at position `i` in order,
    /// present exactly when `i` is below the length.
    #[verifier::external_body]
    fn get_index_raw(&self, i: usize) -> (r: Option<(&String, &StringTypeReference)>)
        ensures
            match r {
                Some(p) => {
                    &&& i < type_var_entries(*self).len()
                    &&& p.0@ == type_var_entries(*self)[i as int].0
                    &&& p.1@ == type_var_entries(*self)[i as int].1
                },
                None => i >= type_var_entries(*self).len(),
            },
    {
        self.map.get_index(i)
    }

    /// An empty map.
    pub fn new() -> (r: TypeVars)
        ensures
            r@ == Seq::<(Seq<char>, TypeRefModel)>::empty(),
    {
        TypeVars::empty_map()
    }

    /// Binds `k` to `v`; a name bound before keeps its place and takes `v`.
    pub fn insert(&mut self, k: &StringName, v: StringTypeReference)
        ensures
            final(self)@ == insert_entry(old(self)@, k@, v@),
    {
        self.insert_raw(k.as_str().to_owned(), v)
    }

    pub fn len(&self) -> (r: usize)
        ensures
            r == self@.len(),
    {
        self.len_raw()
    }

    /// The name and reference at position `i`.
    pub fn get_index(&self, i: usize) -> (r: (&String, &StringTypeReference))
        requires
            i < self@.len(),
        ensures
            r.0@ == self@[i as int].0,
            r.1@ == self@[i as int].1,
    {
        match self.get_index_raw(i) {
            Some(p) => p,
            None => unreached(),
        }
    }
}

} // verus!
