//! A cache of audio files on disk, shared by the tracks that use them.
//!
//! Paths are compared as the file system reads them, by their components, so
//! that `a/b` and `a//b` name one file.
//!
//! Each cached file has one [`Entry`], owned jointly by the [`FileHandle`]s that
//! point at it; the cache itself only holds weak references. An entry carries a
//! guard, chosen by the application, that lives exactly as long as the entry:
//! the guard that the application uses removes the file when it is dropped,
//! that is once no handle to the file is left.
use crate::path::{components_of, path_components, same_components};
use std::sync::{Arc, Weak};
use vstd::prelude::*;

verus! {

/// A weak reference to a shared value (a `std::sync::Weak`): it does not keep
/// the value alive. Verus sees nothing inside it.
#[derive(Debug)]
#[verifier::external_body]
#[verifier::reject_recursive_types(T)]
pub struct WeakRef<T> {
    inner: Weak<T>,
}

/// Calls `Arc::downgrade`. Nothing is claimed of the weak reference beyond its type.
#[verifier::external_body]
fn arc_downgrade<T>(shared: &Arc<T>) -> WeakRef<T> {
    WeakRef { inner: Arc::downgrade(shared) }
}

/// Calls `Weak::upgrade`. Whether the value is still alive depends on the other
/// owners, and nothing is claimed of which value comes back.
#[verifier::external_body]
fn weak_upgrade<T>(weak: &WeakRef<T>) -> Option<Arc<T>> {
    weak.inner.upgrade()
}

/// What an entry keeps alive beside its path: made from the path when the file
/// enters the cache, dropped when the last handle to the file is dropped.
pub trait FileGuard: Sized {
    fn guard(path: &str) -> Self;
}

/// A guard that does nothing: the file stays on disk.
#[derive(Debug)]
pub struct KeepFile;

impl FileGuard for KeepFile {
    fn guard(path: &str) -> KeepFile {
        KeepFile
    }
}

/// A cached file: its path and its guard.
#[derive(Debug)]
pub struct Entry<G> {
    path: String,
    guard: G,
}

impl<G> Entry<G> {
    pub closed spec fn path_view(&self) -> Seq<char> {
        self.path@
    }

    /// The path of the file.
    pub fn get_path(&self) -> (r: &str)
        ensures
            r@ == self.path_view(),
    {
        self.path.as_str()
    }
}

/// A handle that keeps a cached file alive.
#[derive(Debug)]
pub struct FileHandle<G> {
    entry: Arc<Entry<G>>,
}

impl<G> View for FileHandle<G> {
    type V = Seq<char>;

    /// The path of the file.
    closed spec fn view(&self) -> Seq<char> {
        self.entry.path_view()
    }
}

impl<G> FileHandle<G> {
    /// The entry that the handle keeps alive.
    pub closed spec fn entry(&self) -> Arc<Entry<G>> {
        self.entry
    }

    /// The path of the file.
    pub fn get_path(&self) -> (r: &str)
        ensures
            r@ == self@,
    {
        self.entry.get_path()
    }
}

/// The files that were handed out, by the components of their paths.
#[verifier::reject_recursive_types(G)]
pub struct FileCache<G> {
    entries: Vec<(Vec<String>, WeakRef<Entry<G>>)>,
    /// What the weak reference held under the path of the last handout gave
    /// back: the entry, where it was still alive.
    found: Ghost<Option<Arc<Entry<G>>>>,
}

impl<G> FileCache<G> {
    /// The paths held, by their components, in the order in which they entered.
    pub closed spec fn keys(&self) -> Seq<Seq<Seq<char>>> {
        self.entries@.map_values(
            |e: (Vec<String>, WeakRef<Entry<G>>)| e.0@.map_values(|s: String| s@),
        )
    }

    /// The entry that the last handout found still alive under its path's
    /// components, as the weak reference gave it back; `None` where the cache
    /// held no entry for them or the one it held was gone.
    pub closed spec fn found(&self) -> Option<Arc<Entry<G>>> {
        self.found@
    }

    /// No path is held twice.
    pub closed spec fn wf(&self) -> bool {
        self.keys().no_duplicates()
    }
}

impl<G> View for FileCache<G> {
    type V = Set<Seq<Seq<char>>>;

    /// The paths, by their components, that the cache has handed out a handle for.
    closed spec fn view(&self) -> Set<Seq<Seq<char>>> {
        self.keys().to_set()
    }
}

impl<G: FileGuard> FileCache<G> {
    /// An empty cache.
    pub fn new() -> (r: Self)
        ensures
            r.wf(),
            r@ == Set::<Seq<Seq<char>>>::empty(),
    {
        let r = FileCache { entries: Vec::new(), found: Ghost(None) };
        proof {
            assert(r.keys() =~= Seq::<Seq<Seq<char>>>::empty());
        }
        r
    }

    /// The index of `key` among the entries, if it is there.
    fn find(&self, key: &Vec<String>) -> (r: Option<usize>)
        requires
            self.wf(),
        ensures
            r matches Some(i) ==> i < self.entries@.len() && self.keys()[i as int] == key@.map_values(
                |s: String| s@,
            ),
            r is None ==> !self@.contains(key@.map_values(|s: String| s@)),
    {
        let ghost k = key@.map_values(|s: String| s@);
        let mut i: usize = 0;
        while i < self.entries.len()
            invariant
                i <= self.entries@.len(),
                k == key@.map_values(|s: String| s@),
                forall|j: int| 0 <= j < i ==> self.keys()[j] != k,
            decreases self.entries@.len() - i,
        {
            if same_components(&self.entries[i].0, key) {
                return Some(i);
            }
            i = i + 1;
        }
        proof {
            if self.keys().contains(k) {
                let j = choose|j: int| 0 <= j < self.keys().len() && self.keys()[j] == k;
                assert(self.keys()[j] == k);
            }
        }
        None
    }

    /// Whether a handle to `path` is still alive, `path` compared by its
    /// components. That is only known at run time; it can only be so where the
    /// cache has handed one out.
    pub fn contains_key(&self, path: &str) -> (r: bool)
        requires
            self.wf(),
        ensures
            r ==> self@.contains(path_components(path@)),
    {
        let key = components_of(path);
        match self.find(&key) {
            Some(i) => {
                proof {
                    assert(self.keys().contains(path_components(path@)));
                }
                weak_upgrade(&self.entries[i].1).is_some()
            },
            None => false,
        }
    }

    /// A handle to the live entry of `path`, where the cache holds one that is
    /// still alive; whether it is alive is only known at run time. The entry's
    /// path names the same file as `path`, though it may be written otherwise.
    pub fn live_handle(&self, path: &str) -> (r: Option<FileHandle<G>>)
        requires
            self.wf(),
        ensures
            r matches Some(h) ==> path_components(h@) == path_components(path@) && self@.contains(
                path_components(path@),
            ),
    {
        let key = components_of(path);
        match self.find(&key) {
            Some(i) => {
                proof {
                    assert(self.keys().contains(path_components(path@)));
                }
                match weak_upgrade(&self.entries[i].1) {
                    // The entry held under a path was made for that path; the
                    // comparison states it where the weak reference hides it.
                    Some(entry) => if same_components(&components_of(entry.get_path()), &key) {
                        Some(FileHandle { entry })
                    } else {
                        None
                    },
                    None => None,
                }
            },
            None => None,
        }
    }

    /// A handle to the file at `path`: the live entry of a path with the same
    /// components where there is one, else a new entry, whose guard is made
    /// from `path`, and which the cache then holds under those components.
    ///
    /// Where the entry held under those components is still alive (recorded in
    /// `found()`), the handle shares that very entry: no entry and no guard is
    /// made, and the cache is left as it was, so the entry lives on as long as
    /// any handle to it. Only where none is alive is a new entry made, for
    /// `path` as written.
    pub fn create_file_handle(&mut self, path: &str) -> (r: FileHandle<G>)
        requires
            old(self).wf(),
        ensures
            final(self).wf(),
            final(self)@ == old(self)@.insert(path_components(path@)),
            path_components(r@) == path_components(path@),
            final(self).found() matches Some(e) ==> (path_components(e.path_view())
                == path_components(path@) ==> r.entry() == e && final(self)@ == old(self)@
                && final(self).keys() == old(self).keys()),
            final(self).found() matches Some(e) ==> old(self)@.contains(path_components(path@)),
            final(self).found() is None ==> r@ == path@,
    {
        let key = components_of(path);
        let ghost k = path_components(path@);
        match self.find(&key) {
            Some(i) => {
                let live = weak_upgrade(&self.entries[i].1);
                proof {
                    self.found@ = live;
                }
                if let Some(entry) = live {
                    // The entry held under a path was made for that path; the
                    // comparison states it where the weak reference hides it.
                    if same_components(&components_of(entry.get_path()), &key) {
                        proof {
                            assert(self.keys().contains(k));
                            assert(self@.insert(k) =~= self@);
                        }
                        return FileHandle { entry };
                    }
                }
                let entry = Arc::new(Entry { path: path.to_owned(), guard: G::guard(path) });
                let weak = arc_downgrade(&entry);
                let ghost old_keys = self.keys();
                self.entries.set(i, (key, weak));
                proof {
                    assert(self.keys() =~= old_keys.update(i as int, k));
                    assert(old_keys.update(i as int, k) =~= old_keys);
                    assert(old_keys.contains(k));
                    assert(self@ =~= old(self)@.insert(k));
                }
                FileHandle { entry }
            },
            None => {
                proof {
                    self.found@ = None;
                }
                let entry = Arc::new(Entry { path: path.to_owned(), guard: G::guard(path) });
                let weak = arc_downgrade(&entry);
                let ghost old_keys = self.keys();
                self.entries.push((key, weak));
                proof {
                    let new_keys = self.keys();
                    assert(new_keys =~= old_keys.push(k));
                    assert(new_keys[old_keys.len() as int] == k);
                    assert forall|x: Seq<Seq<char>>| new_keys.contains(x) implies old_keys.contains(x)
                        || x == k by {
                        let j = choose|j: int| 0 <= j < new_keys.len() && new_keys[j] == x;
                        if j < old_keys.len() {
                            assert(old_keys[j] == x);
                        }
                    }
                    assert forall|x: Seq<Seq<char>>| old_keys.contains(x) implies new_keys.contains(
                        x,
                    ) by {
                        let j = choose|j: int| 0 <= j < old_keys.len() && old_keys[j] == x;
                        assert(new_keys[j] == x);
                    }
                    assert(self@ =~= old(self)@.insert(k));
                }
                FileHandle { entry }
            },
        }
    }
}

} // verus!
