use vstd::prelude::*;
use vstd::string::*;
use crate::text::str_eq;

verus! {

/// A route that an extension serves.
#[derive(Debug, Clone)]
pub struct ExtensionRoute {
    pub path: String,
    pub requires_auth: bool,
    pub admin_only: bool,
}

/// A component that an extension offers.
#[derive(Debug, Clone)]
pub struct ExtensionComponent {
    pub name: String,
    pub description: String,
}

/// What every extension of the system provides.
pub trait Extension {
    /// Unique identifier of the extension.
    fn id(&self) -> &'static str;

    /// Human-readable name.
    fn name(&self) -> &'static str;

    /// Version of the extension.
    fn version(&self) -> &'static str;

    /// Prepares the extension; called once on startup.
    fn init(&mut self) -> Result<(), String>;

    /// The routes the extension serves.
    fn routes(&self) -> Vec<ExtensionRoute> {
        Vec::new()
    }

    /// The components the extension offers.
    fn components(&self) -> Vec<ExtensionComponent> {
        Vec::new()
    }
}

/// The registered extensions, each under the id it reported when it was registered,
/// in the order they were first registered.
pub struct ExtensionManager<E> {
    extensions: Vec<(String, E)>,
    initialized: bool,
}

/// The position of `id` among the keys, if it is there.
pub open spec fn key_index(keys: Seq<Seq<char>>, id: Seq<char>) -> Option<int> {
    if keys.contains(id) {
        Some(choose|k: int| 0 <= k < keys.len() && keys[k] == id)
    } else {
        None
    }
}

impl<E: Extension> ExtensionManager<E> {
    /// `after` is `before` with `extension` registered under `id`: in the place of an
    /// extension already registered under it, or added last; every other id keeps its
    /// extension.
    pub open spec fn registered_under(before: Self, after: Self, id: Seq<char>, extension: E) -> bool {
        &&& before.ids().contains(id) ==> after.ids() == before.ids() && after.entries()
            == before.entries().update(key_index(before.ids(), id)->0, extension)
        &&& !before.ids().contains(id) ==> after.ids() == before.ids().push(id)
            && after.entries() == before.entries().push(extension)
    }

    /// The ids of the registered extensions, in order.
    pub closed spec fn ids(&self) -> Seq<Seq<char>> {
        self.extensions@.map_values(|p: (String, E)| p.0@)
    }

    /// The registered extensions, in the order of `ids`.
    pub closed spec fn entries(&self) -> Seq<E> {
        self.extensions@.map_values(|p: (String, E)| p.1)
    }

    /// Whether every extension has been initialised.
    pub closed spec fn is_initialized(&self) -> bool {
        self.initialized
    }

    /// No id is registered twice.
    pub open spec fn wf(&self) -> bool {
        &&& self.ids().len() == self.entries().len()
        &&& forall|a: int, b: int|
            0 <= a < b < self.ids().len() ==> self.ids()[a] != self.ids()[b]
    }

    pub fn new() -> (r: Self)
        ensures
            r.wf(),
            r.ids() == Seq::<Seq<char>>::empty(),
            !r.is_initialized(),
    {
        let r = ExtensionManager { extensions: Vec::new(), initialized: false };
        assert(r.ids() =~= Seq::<Seq<char>>::empty());
        assert(r.entries() =~= Seq::<E>::empty());
        r
    }

    fn position(&self, id: &str) -> (r: Option<usize>)
        ensures
            r is None <==> !self.ids().contains(id@),
            r matches Some(k) ==> k < self.ids().len() && self.ids()[k as int] == id@,
    {
        let mut k: usize = 0;
        while k < self.extensions.len()
            invariant
                k <= self.extensions@.len(),
                self.ids() == self.extensions@.map_values(|p: (String, E)| p.0@),
                forall|j: int| 0 <= j < k ==> self.ids()[j] != id@,
            decreases self.extensions@.len() - k,
        {
            if str_eq(self.extensions[k].0.as_str(), id) {
                assert(self.ids()[k as int] == id@);
                return Some(k);
            }
            k += 1;
        }
        None
    }

    /// Registers `extension` under `id`: it replaces an extension already registered
    /// under that id, in its place, or is added last.
    pub fn insert(&mut self, id: String, extension: E)
        requires
            old(self).wf(),
        ensures
            final(self).wf(),
            final(self).is_initialized() == old(self).is_initialized(),
            old(self).ids().contains(id@) ==> final(self).ids() == old(self).ids(),
            old(self).ids().contains(id@) ==> final(self).entries() == old(self).entries().update(
                key_index(old(self).ids(), id@)->0,
                extension,
            ),
            !old(self).ids().contains(id@) ==> final(self).ids() == old(self).ids().push(id@)
                && final(self).entries() == old(self).entries().push(extension),
    {
        match self.position(id.as_str()) {
            Some(k) => {
                let ghost ids0 = self.ids();
                let ghost es0 = self.entries();
                proof {
                    let c = key_index(ids0, id@)->0;
                    assert(ids0[c] == id@);
                    if c != k as int {
                        if c < k {
                            assert(ids0[c] != ids0[k as int]);
                        } else {
                            assert(ids0[k as int] != ids0[c]);
                        }
                    }
                }
                self.extensions.set(k, (id, extension));
                assert(self.ids() =~= ids0);
                assert(self.entries() =~= es0.update(k as int, extension));
            },
            None => {
                let ghost ids0 = self.ids();
                let ghost es0 = self.entries();
                let ghost idv = id@;
                self.extensions.push((id, extension));
                assert(self.ids() =~= ids0.push(idv));
                assert(self.entries() =~= es0.push(extension));
            },
        }
    }

    /// Registers an extension under the id it reports: it replaces an extension
    /// already registered under that id, in its place, or is added last.
    pub fn register(&mut self, extension: E)
        requires
            old(self).wf(),
        ensures
            final(self).wf(),
            final(self).is_initialized() == old(self).is_initialized(),
            exists|id: Seq<char>| Self::registered_under(*old(self), *final(self), id, extension),
    {
        let id = String::from_str(extension.id());
        let ghost idv = id@;
        self.insert(id, extension);
        assert(Self::registered_under(*old(self), *self, idv, extension));
    }

    /// Initialises every registered extension in order, once: when the manager is
    /// already initialised nothing is called; otherwise the first failure is returned
    /// and the manager stays uninitialised.
    pub fn init_all(&mut self) -> (r: Result<(), String>)
        requires
            old(self).wf(),
        ensures
            final(self).wf(),
            final(self).ids() == old(self).ids(),
            old(self).is_initialized() ==> r is Ok && final(self).entries() == old(self).entries(),
            final(self).is_initialized() <==> r is Ok,
    {
        if self.initialized {
            return Ok(());
        }
        let ghost ids0 = self.ids();
        let mut k: usize = 0;
        while k < self.extensions.len()
            invariant
                k <= self.extensions@.len(),
                self.ids() == ids0,
                old(self).ids() == ids0,
                !old(self).is_initialized(),
                self.wf(),
                !self.initialized,
            decreases self.extensions@.len() - k,
        {
            let ghost before = self.extensions@;
            let (id, mut extension) = self.extensions.remove(k);
            let ghost idv = id@;
            assert(idv == before[k as int].0@);
            let outcome = extension.init();
            self.extensions.insert(k, (id, extension));
            assert forall|j: int| 0 <= j < before.len() implies #[trigger] self.extensions@[j].0@
                == before[j].0@ by {
                if j < k {
                    assert(self.extensions@[j] == before[j]);
                } else if j > k {
                    assert(self.extensions@[j] == before[j]);
                }
            }
            assert(self.extensions@.map_values(|p: (String, E)| p.0@) =~= before.map_values(
                |p: (String, E)| p.0@,
            ));
            assert(self.entries().len() == self.ids().len());
            if let Err(e) = outcome {
                return Err(e);
            }
            k += 1;
        }
        self.initialized = true;
        Ok(())
    }

    /// The extension registered under `id`, if any.
    pub fn get_extension(&self, id: &str) -> (r: Option<&E>)
        requires
            self.wf(),
        ensures
            r is None <==> !self.ids().contains(id@),
            r matches Some(e) ==> *e == self.entries()[key_index(self.ids(), id@)->0],
    {
        match self.position(id) {
            Some(k) => {
                proof {
                    let c = key_index(self.ids(), id@)->0;
                    if c != k as int {
                        if c < k {
                            assert(self.ids()[c] != self.ids()[k as int]);
                        } else {
                            assert(self.ids()[k as int] != self.ids()[c]);
                        }
                    }
                }
                Some(&self.extensions[k].1)
            },
            None => None,
        }
    }

    /// Id, name and version of every registered extension, in registration order.
    pub fn list_extensions(&self) -> (r: Vec<(&'static str, &'static str, &'static str)>)
        requires
            self.wf(),
        ensures
            r@.len() == self.ids().len(),
    {
        let mut out: Vec<(&'static str, &'static str, &'static str)> = Vec::new();
        let mut k: usize = 0;
        while k < self.extensions.len()
            invariant
                k <= self.extensions@.len(),
                out@.len() == k,
                self.wf(),
            decreases self.extensions@.len() - k,
        {
            let e = &self.extensions[k].1;
            out.push((e.id(), e.name(), e.version()));
            k += 1;
        }
        out
    }

    /// The routes of every registered extension, extension after extension; none
    /// when no extension is registered.
    pub fn get_all_routes(&self) -> (r: Vec<ExtensionRoute>)
        requires
            self.wf(),
        ensures
            self.ids().len() == 0 ==> r@.len() == 0,
    {
        let mut out: Vec<ExtensionRoute> = Vec::new();
        let mut k: usize = 0;
        while k < self.extensions.len()
            invariant
                k <= self.extensions@.len(),
                k == 0 ==> out@.len() == 0,
            decreases self.extensions@.len() - k,
        {
            let mut routes = self.extensions[k].1.routes();
            out.append(&mut routes);
            k += 1;
        }
        out
    }
}

impl<E: Extension> Default for ExtensionManager<E> {
    fn default() -> (r: Self)
        ensures
            r.wf(),
            r.ids() == Seq::<Seq<char>>::empty(),
            !r.is_initialized(),
    {
        Self::new()
    }
}

} // verus!
