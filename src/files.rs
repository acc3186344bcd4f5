use crate::error::Error;
use dashmap::DashMap;
use vstd::prelude::*;

verus! {

#[verifier::external_type_specification]
#[verifier::external_body]
#[verifier::reject_recursive_types(K)]
#[verifier::reject_recursive_types(V)]
#[verifier::reject_recursive_types(S)]
pub struct ExDashMap<K, V, S>(DashMap<K, V, S>);

/// The entries of a map from file names to encoded bytes.
pub uninterp spec fn file_entries(m: DashMap<String, Vec<u8>>) -> Map<Seq<char>, Seq<u8>>;

/// Relies on `DashMap::new`: a new map has no entries.
#[verifier::external_body]
fn entries_new() -> (r: DashMap<String, Vec<u8>>)
    ensures
        file_entries(r) =~= Map::empty(),
{
    DashMap::new()
}

/// Relies on `DashMap::insert`: the key then maps to the value, in place of
/// any earlier one.
#[verifier::external_body]
fn entries_insert(m: &mut DashMap<String, Vec<u8>>, name: String, bytes: Vec<u8>)
    ensures
        file_entries(*final(m)) == file_entries(*old(m)).insert(name@, bytes@),
{
    m.insert(name, bytes);
}

/// Relies on `DashMap::remove`: the entry of the key, if there is one, leaves
/// the map and its value comes back.
#[verifier::external_body]
fn entries_remove(m: &mut DashMap<String, Vec<u8>>, name: &str) -> (r: Option<Vec<u8>>)
    ensures
        match r {
            Some(b) => file_entries(*old(m)).contains_key(name@) && b@ == file_entries(
                *old(m),
            )[name@],
            None => !file_entries(*old(m)).contains_key(name@),
        },
        file_entries(*final(m)) == file_entries(*old(m)).remove(name@),
{
    m.remove(name).map(|(_, bytes)| bytes)
}

/// Encoded image files by name. Each entry can be taken once.
#[derive(Debug)]
pub struct Files {
    entries: DashMap<String, Vec<u8>>,
}

impl View for Files {
    type V = Map<Seq<char>, Seq<u8>>;

    closed spec fn view(&self) -> Map<Seq<char>, Seq<u8>> {
        file_entries(self.entries)
    }
}

impl Files {
    pub fn new() -> (r: Files)
        ensures
            r@ == Map::<Seq<char>, Seq<u8>>::empty(),
    {
        Files { entries: entries_new() }
    }

    /// Registers the encoded bytes of a file, in place of any earlier entry
    /// under that name.
    pub fn insert(&mut self, name: String, bytes: Vec<u8>)
        ensures
            final(self)@ == old(self)@.insert(name@, bytes@),
    {
        entries_insert(&mut self.entries, name, bytes);
    }

    /// Takes the bytes registered under `name` out of the registry.
    pub fn take(&mut self, name: &str) -> (r: Result<Vec<u8>, Error>)
        ensures
            match r {
                Ok(b) => old(self)@.contains_key(name@) && b@ == old(self)@[name@],
                Err(e) => !old(self)@.contains_key(name@) && e is UnknownFileName
                    && e->UnknownFileName_0@ == name@,
            },
            final(self)@ == old(self)@.remove(name@),
    {
        match entries_remove(&mut self.entries, name) {
            Some(b) => Ok(b),
            None => Err(Error::UnknownFileName(name.to_owned())),
        }
    }
}

} // verus!
