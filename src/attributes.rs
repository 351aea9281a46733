//! Key-value attributes read from a service definition's annotations
//! (`#[prefix(key = value, key)]`): keys with an optional value each.

use vstd::prelude::*;

use crate::table::KeyedTable;

verus! {

/// Attribute values by key; a key may be present without a value.
pub struct Attributes {
    pub attrs: KeyedTable<String, Option<String>>,
}

impl Attributes {
    pub fn new() -> (r: Self)
        ensures
            r.attrs@ == Map::<Seq<char>, Option<String>>::empty(),
    {
        Attributes { attrs: KeyedTable::new() }
    }

    /// The value of `key`: the one it has, or `default`, which becomes its
    /// value when the key is absent or has none.
    pub fn set_default(&mut self, key: &str, default: &str) -> (r: String)
        ensures
            ({
                let has_value = old(self).attrs@.contains_key(key@) && old(self).attrs@[key@] is Some;
                &&& has_value ==> r == old(self).attrs@[key@].unwrap() && final(self).attrs@ == old(
                    self,
                ).attrs@
                &&& !has_value ==> r@ == default@ && final(self).attrs@ == old(self).attrs@.insert(
                    key@,
                    Some(r),
                )
            }),
    {
        let k = key.to_owned();
        if let Some(Some(v)) = self.attrs.get(&k) {
            return v.clone();
        }
        let ghost before = self.attrs@;
        self.attrs.remove(&k);
        let value = default.to_owned();
        let out = value.clone();
        let _ = self.attrs.insert_new(k, Some(value));
        assert(self.attrs@ =~= before.insert(key@, Some(out)));
        out
    }

    /// The entry of `key`: none when absent, else its optional value.
    pub fn get(&self, key: &str) -> (r: Option<Option<String>>)
        ensures
            r is Some <==> self.attrs@.contains_key(key@),
            r matches Some(v) ==> v == self.attrs@[key@],
    {
        let k = key.to_owned();
        match self.attrs.get(&k) {
            None => None,
            Some(v) => Some(v.clone()),
        }
    }
}

} // verus!
