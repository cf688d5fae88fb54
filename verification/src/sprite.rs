//! Handles of textures, the sprites that show them, and the cache of loaded resources.

use vstd::prelude::*;
use std::rc::Rc;

verus! {

/// The handle of a loaded texture.
#[derive(Clone, Copy, Debug, PartialEq, Eq, Hash, Structural)]
pub struct TextureId(pub isize);

/// Keys that are handed out one after the other.
pub trait Key: Sized {
    /// Whether there is a key after this one.
    spec fn has_next(&self) -> bool;

    /// The first key.
    fn new() -> Self;

    /// The key after this one.
    fn next(&self) -> Self
        requires
            self.has_next(),
    ;
}

impl Key for TextureId {
    open spec fn has_next(&self) -> bool {
        self.0 < isize::MAX
    }

    fn new() -> (k: TextureId)
        ensures
            k == TextureId(0),
    {
        TextureId(0)
    }

    fn next(&self) -> (k: TextureId)
        ensures
            k.0 == self.0 + 1,
    {
        TextureId(self.0 + 1)
    }
}

/// Something that can load a resource of the kind `R` from a description of it.
pub trait ResourceLoader<R> {
    type Args: ?Sized;

    fn load(&self, data: &Self::Args) -> Result<R, String>;
}

/// `Rc::clone`: another pointer to the value that `rc` points to.
///
/// Believed of it: the new pointer equals the old one, which for pointers means that they
/// point to the same value.
#[verifier::external_body]
fn share<R>(rc: &Rc<R>) -> (r: Rc<R>)
    ensures
        r == *rc,
{
    Rc::clone(rc)
}

/// The key recorded for `name` in `cache`: that of the last entry with that name.
pub open spec fn lookup(cache: Seq<(String, TextureId)>, name: Seq<char>) -> Option<TextureId>
    decreases cache.len(),
{
    if cache.len() == 0 {
        None
    } else if cache.last().0@ == name {
        Some(cache.last().1)
    } else {
        lookup(cache.drop_last(), name)
    }
}

/// A cache of resources loaded by name. Every resource is loaded once, gets the next free
/// key, and is found again under its name or its key.
pub struct ResourceManager<'l, R, L: ResourceLoader<R>> {
    loader: &'l L,
    cache: Vec<(String, TextureId)>,
    next_key: TextureId,
    storage: Vec<Rc<R>>,
}

impl<'l, R, L: ResourceLoader<R>> ResourceManager<'l, R, L> {
    /// The resources held, in the order of their keys: the resource of the key `k` is at
    /// the place `k.0`.
    pub closed spec fn stored(&self) -> Seq<Rc<R>> {
        self.storage@
    }

    /// The key of the resource loaded under `name`, if one was.
    pub closed spec fn cached(&self, name: Seq<char>) -> Option<TextureId> {
        lookup(self.cache@, name)
    }

    /// The key that the next resource gets is the number of resources held.
    pub closed spec fn wf(&self) -> bool {
        self.next_key.0 == self.storage@.len()
    }

    /// A cache without resources.
    pub fn new(loader: &'l L) -> (m: Self)
        ensures
            m.wf(),
            m.stored() == Seq::<Rc<R>>::empty(),
            forall|name: Seq<char>| m.cached(name) is None,
    {
        ResourceManager {
            cache: Vec::new(),
            storage: Vec::new(),
            next_key: TextureId::new(),
            loader,
        }
    }

    /// The key of the resource loaded under `name`, if one was.
    pub fn find(&self, name: &String) -> (r: Option<TextureId>)
        ensures
            r == self.cached(name@),
    {
        let mut j: usize = self.cache.len();
        assert(self.cache@.take(j as int) =~= self.cache@);
        while j > 0
            invariant
                j <= self.cache@.len(),
                lookup(self.cache@, name@) == lookup(self.cache@.take(j as int), name@),
            decreases j,
        {
            j = j - 1;
            proof {
                assert(self.cache@.take(j + 1).drop_last() =~= self.cache@.take(j as int));
                assert(self.cache@.take(j + 1).last() == self.cache@[j as int]);
            }
            if self.cache[j].0 == *name {
                return Some(self.cache[j].1);
            }
        }
        assert(self.cache@.take(0) =~= Seq::<(String, TextureId)>::empty());
        None
    }

    /// Whether one more resource can get a key.
    pub open spec fn has_room(&self) -> bool {
        self.stored().len() < isize::MAX
    }

    /// Takes in what the loader returned for `details`: a resource is held from now on
    /// under the next free key and recorded under `details`; an error is handed on and
    /// nothing changes.
    pub fn keep(&mut self, details: &str, loaded: Result<R, String>) -> (r: Result<
        TextureId,
        String,
    >)
        requires
            old(self).wf(),
            old(self).has_room(),
        ensures
            final(self).wf(),
            match loaded {
                Ok(resource) => {
                    &&& r == Ok::<TextureId, String>(TextureId(old(self).stored().len() as isize))
                    &&& final(self).stored().len() == old(self).stored().len() + 1
                    &&& final(self).stored().drop_last() == old(self).stored()
                    &&& *final(self).stored().last() == resource
                    &&& final(self).cached(details@) == Some(
                        TextureId(old(self).stored().len() as isize),
                    )
                    &&& forall|name: Seq<char>|
                        name != details@ ==> final(self).cached(name) == old(self).cached(name)
                },
                Err(message) => {
                    &&& r == Err::<TextureId, String>(message)
                    &&& final(self).stored() == old(self).stored()
                    &&& forall|name: Seq<char>| final(self).cached(name) == old(self).cached(name)
                },
            },
    {
        match loaded {
            Ok(loaded_resource) => {
                let resource = Rc::new(loaded_resource);
                let id = self.next_key;
                let ghost cache_before = self.cache@;
                self.cache.push((details.to_owned(), id));
                self.storage.push(resource);
                self.next_key = id.next();
                proof {
                    assert(self.cache@.drop_last() =~= cache_before);
                    assert(self.storage@.drop_last() =~= old(self).storage@);
                }
                Ok(id)
            },
            Err(message) => Err(message),
        }
    }

    /// The key of the resource described by `details`. A resource that was loaded before
    /// is not loaded again; a new one is loaded and kept.
    ///
    /// Whether the loader succeeds is up to the loader; what follows from its answer is
    /// what `keep` does. Where no key is left, nothing is loaded and an error comes back.
    pub fn load(&mut self, details: &str) -> (r: Result<TextureId, String>) where
        L: ResourceLoader<R, Args = str>,

        requires
            old(self).wf(),
        ensures
            final(self).wf(),
            old(self).cached(details@) matches Some(id) ==> r == Ok::<TextureId, String>(id)
                && final(self).stored() == old(self).stored(),
            old(self).cached(details@) is Some ==> forall|name: Seq<char>|
                final(self).cached(name) == old(self).cached(name),
            old(self).cached(details@) is None && !old(self).has_room() ==> r is Err
                && final(self).stored() == old(self).stored(),
            old(self).cached(details@) is None ==> match r {
                Ok(id) => {
                    &&& id == TextureId(old(self).stored().len() as isize)
                    &&& final(self).stored().len() == old(self).stored().len() + 1
                    &&& final(self).stored().drop_last() == old(self).stored()
                    &&& final(self).cached(details@) == Some(id)
                    &&& forall|name: Seq<char>|
                        name != details@ ==> final(self).cached(name) == old(self).cached(name)
                },
                Err(_) => {
                    &&& final(self).stored() == old(self).stored()
                    &&& forall|name: Seq<char>| final(self).cached(name) == old(self).cached(name)
                },
            },
    {
        let name = details.to_owned();
        match self.find(&name) {
            Some(id) => Ok(id),
            None => {
                if self.storage.len() >= isize::MAX as usize {
                    return Err("no texture id is left".to_owned());
                }
                let loaded = self.loader.load(details);
                self.keep(details, loaded)
            },
        }
    }

    /// Puts `resource` in the place of the resource held under `key` and returns the one
    /// that was there. Where nothing is held under `key`, nothing changes and nothing is
    /// returned. The names recorded stay as they are.
    pub fn replace(&mut self, key: TextureId, resource: R) -> (r: Option<Rc<R>>)
        requires
            old(self).wf(),
        ensures
            final(self).wf(),
            forall|name: Seq<char>| final(self).cached(name) == old(self).cached(name),
            match r {
                Some(before) => {
                    &&& 0 <= key.0 < old(self).stored().len()
                    &&& before == old(self).stored()[key.0 as int]
                    &&& final(self).stored().len() == old(self).stored().len()
                    &&& *final(self).stored()[key.0 as int] == resource
                    &&& forall|i: int|
                        0 <= i < old(self).stored().len() && i != key.0 ==> final(self).stored()[i] == old(self).stored()[i]
                },
                None => {
                    &&& !(0 <= key.0 < old(self).stored().len())
                    &&& final(self).stored() == old(self).stored()
                },
            },
    {
        if key.0 >= 0 && (key.0 as usize) < self.storage.len() {
            let mut held = Rc::new(resource);
            core::mem::swap(&mut self.storage[key.0 as usize], &mut held);
            Some(held)
        } else {
            None
        }
    }

    /// The resource held under `key`, if there is one.
    pub fn get(&self, key: TextureId) -> (r: Option<Rc<R>>)
        ensures
            match r {
                Some(resource) => 0 <= key.0 < self.stored().len() && resource
                    == self.stored()[key.0 as int],
                None => !(0 <= key.0 < self.stored().len()),
            },
    {
        if key.0 >= 0 && (key.0 as usize) < self.storage.len() {
            Some(share(&self.storage[key.0 as usize]))
        } else {
            None
        }
    }
}

/// What an entity looks like: a texture, and how deep in the picture it is drawn.
#[derive(Clone, Copy, Debug, PartialEq, Eq, Structural)]
pub struct Sprite {
    pub texture_id: TextureId,
    pub depth: i32,
}

impl Sprite {
    /// A sprite of the given texture at depth zero.
    pub fn new(texture_id: TextureId) -> (s: Sprite)
        ensures
            s == (Sprite { texture_id, depth: 0 }),
    {
        Sprite { texture_id, depth: 0 }
    }
}

} // verus!
