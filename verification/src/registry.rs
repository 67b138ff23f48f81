//! The host-side registry: proxies that pair a registered loader with a
//! shared handle on its owning module image, the per-load registrar, and the
//! process-wide collection of loaded modules with its name → proxy index.
//!
//! The registry is generic over the loader type `L` and the module-image
//! type `M`; an image is always held through `Rc<M>`, so it stays mapped for
//! as long as the registry, or any proxy cloned from it, is alive.

use std::rc::Rc;
use vstd::prelude::*;
use vstd::string::StringExecFns;
use crate::declaration::{check_declaration, compatible, HostVersions, PluginDeclaration};
use crate::errors::LoadError;
use crate::interfaces::{PluginLoader, PluginRegistrar};

verus! {

/// Relies on std's Rc::clone: the returned handle shares, and so is equal
/// to, the given one.
#[verifier::external_body]
pub(crate) fn clone_handle<M>(h: &Rc<M>) -> (r: Rc<M>)
    ensures
        r == *h,
{
    Rc::clone(h)
}

/// One registered loader, bound to a shared handle on the module image that
/// produced it: the image cannot be dropped while the proxy is alive.
pub struct ExternalPluginProxy<L, M> {
    loader: L,
    lib: Rc<M>,
}

impl<L, M> ExternalPluginProxy<L, M> {
    /// The wrapped loader.
    pub closed spec fn loader_spec(&self) -> L {
        self.loader
    }

    /// The shared handle on the owning module image.
    pub closed spec fn lib_spec(&self) -> Rc<M> {
        self.lib
    }

    /// Borrow the wrapped loader.
    pub fn loader(&self) -> (r: &L)
        ensures
            *r == self.loader_spec(),
    {
        &self.loader
    }
}

impl<'a, L: PluginLoader<'a>, M> PluginLoader<'a> for ExternalPluginProxy<L, M> {
    type F = L::F;

    open spec fn loaded(&self, bytes: Seq<u8>, f: L::F) -> bool {
        self.loader_spec().loaded(bytes, f)
    }

    /// Forwards unchanged to the wrapped loader.
    fn load_factory_from_bytes(&self, bytes: &'a [u8]) -> (f: L::F)
        ensures
            self.loaded(bytes@, f),
    {
        self.loader.load_factory_from_bytes(bytes)
    }
}

/// The transient capability handed to a module's entry point: it accumulates
/// (name, loader) registrations for exactly one load, each already wrapped
/// into a proxy holding a fresh handle on the module's image.
pub struct ExternalPluginRegistrar<L, M> {
    loaders: Vec<ExternalPluginProxy<L, M>>,
    names: Vec<String>,
    lib: Rc<M>,
}

impl<L, M> ExternalPluginRegistrar<L, M> {
    /// The proxies built so far, in registration order.
    pub closed spec fn proxies_spec(&self) -> Seq<ExternalPluginProxy<L, M>> {
        self.loaders@
    }

    /// The registered names, in registration order.
    pub closed spec fn names_spec(&self) -> Seq<Seq<char>> {
        Seq::new(self.names@.len(), |i: int| self.names@[i]@)
    }

    /// The handle on the module image this registrar was opened for.
    pub closed spec fn lib_spec(&self) -> Rc<M> {
        self.lib
    }

    /// One name and one proxy per registration, and every proxy holds the
    /// registrar's own image handle.
    pub closed spec fn wf(&self) -> bool {
        &&& self.names@.len() == self.loaders@.len()
        &&& forall|i: int|
            0 <= i < self.loaders@.len() ==> (#[trigger] self.loaders@[i]).lib == self.lib
    }

    /// A fresh registrar for one entry-point invocation, holding a handle on
    /// the module image being loaded.
    pub fn new(lib: Rc<M>) -> (r: Self)
        ensures
            r.wf(),
            r.names_spec().len() == 0,
            r.proxies_spec().len() == 0,
            r.lib_spec() == lib,
    {
        let r = ExternalPluginRegistrar { loaders: Vec::new(), names: Vec::new(), lib };
        proof {
            assert(r.names_spec() =~= Seq::<Seq<char>>::empty());
        }
        r
    }
}

impl<L, M> PluginRegistrar<L> for ExternalPluginRegistrar<L, M> {
    open spec fn inv(&self) -> bool {
        self.wf()
    }

    closed spec fn entries(&self) -> Seq<(Seq<char>, L)> {
        Seq::new(self.names_spec().len(), |i: int| (self.names_spec()[i], self.loaders@[i].loader))
    }

    /// Appends one (name, loader) pair: the loader is wrapped into a proxy
    /// carrying a fresh handle on the module image.
    fn register_loader(&mut self, name: &str, loader: L)
        ensures
            final(self).lib_spec() == old(self).lib_spec(),
    {
        let proxy = ExternalPluginProxy { loader, lib: clone_handle(&self.lib) };
        self.loaders.push(proxy);
        self.names.push(name.to_owned());
        proof {
            assert(self.entries() =~= old(self).entries().push((name@, loader)));
        }
    }
}

/// The process-wide collection of loaded modules: every registered proxy,
/// the name → proxy index, and one image handle per loaded module. Loaded
/// modules stay for the life of the registry; no unload is provided.
pub struct ExternalPlugins<L, M> {
    loaders: Vec<ExternalPluginProxy<L, M>>,
    mapping: Vec<(String, usize)>,
    libraries: Vec<Rc<M>>,
    host: HostVersions,
}

impl<L, M> ExternalPlugins<L, M> {
    /// The registered proxies, in registration order across loads.
    pub closed spec fn loaders_spec(&self) -> Seq<ExternalPluginProxy<L, M>> {
        self.loaders@
    }

    /// The name → proxy-index pairs, in registration order.
    pub closed spec fn mapping_spec(&self) -> Seq<(Seq<char>, int)> {
        Seq::new(self.mapping@.len(), |i: int| (self.mapping@[i].0@, self.mapping@[i].1 as int))
    }

    /// One image handle per successfully loaded module, in load order.
    pub closed spec fn libraries_spec(&self) -> Seq<Rc<M>> {
        self.libraries@
    }

    /// The host tags every loaded module is gated against.
    pub closed spec fn host_spec(&self) -> HostVersions {
        self.host
    }

    /// Every mapped index points at a proxy, and names are unique.
    pub open spec fn wf(&self) -> bool {
        &&& forall|i: int|
            0 <= i < self.mapping_spec().len() ==> 0 <= (#[trigger] self.mapping_spec()[i]).1
                < self.loaders_spec().len()
        &&& forall|i: int, j: int|
            0 <= i < j < self.mapping_spec().len() ==> self.mapping_spec()[i].0
                != self.mapping_spec()[j].0
    }

    /// Whether some loader is registered under `name`.
    pub open spec fn has_name(&self, name: Seq<char>) -> bool {
        exists|i: int|
            0 <= i < self.mapping_spec().len() && (#[trigger] self.mapping_spec()[i]).0 == name
    }

    /// The proxy index registered under `name` (meaningful when `has_name`).
    pub open spec fn index_of(&self, name: Seq<char>) -> int {
        let i = choose|i: int|
            0 <= i < self.mapping_spec().len() && (#[trigger] self.mapping_spec()[i]).0 == name;
        self.mapping_spec()[i].1
    }

    /// An empty registry gating every load against the given host tags.
    pub fn new(host: HostVersions) -> (r: Self)
        ensures
            r.wf(),
            r.loaders_spec().len() == 0,
            r.mapping_spec().len() == 0,
            r.libraries_spec().len() == 0,
            r.host_spec() == host,
    {
        ExternalPlugins { loaders: Vec::new(), mapping: Vec::new(), libraries: Vec::new(), host }
    }

    /// Whether `name` is already registered.
    fn contains_name(&self, name: &String) -> (r: bool)
        ensures
            r == self.has_name(name@),
    {
        let mut i: usize = 0;
        while i < self.mapping.len()
            invariant
                0 <= i <= self.mapping.len(),
                forall|k: int| 0 <= k < i ==> (#[trigger] self.mapping_spec()[k]).0 != name@,
            decreases self.mapping.len() - i,
        {
            if self.mapping[i].0 == *name {
                proof {
                    assert((self.mapping_spec()[i as int]).0 == name@);
                }
                return true;
            }
            i += 1;
        }
        false
    }

    /// Resolve a previously registered name to its proxy.
    pub fn lookup(&self, name: &str) -> (r: Option<&ExternalPluginProxy<L, M>>)
        requires
            self.wf(),
        ensures
            match r {
                Some(p) => self.has_name(name@) && *p == self.loaders_spec()[self.index_of(
                    name@,
                )],
                None => !self.has_name(name@),
            },
    {
        let key = name.to_owned();
        let mut i: usize = 0;
        while i < self.mapping.len()
            invariant
                self.wf(),
                key@ == name@,
                0 <= i <= self.mapping.len(),
                forall|k: int| 0 <= k < i ==> (#[trigger] self.mapping_spec()[k]).0 != name@,
            decreases self.mapping.len() - i,
        {
            if self.mapping[i].0 == key {
                let idx = self.mapping[i].1;
                proof {
                    assert((self.mapping_spec()[i as int]).0 == name@);
                    let j = choose|j: int|
                        0 <= j < self.mapping_spec().len() && (#[trigger] self.mapping_spec()[j]).0
                            == name@;
                    let ghost ii = i as int;
                    assert(j == ii) by {
                        if j < ii {
                            assert((self.mapping_spec()[j]).0 != (self.mapping_spec()[ii]).0);
                        }
                        if ii < j {
                            assert((self.mapping_spec()[ii]).0 != (self.mapping_spec()[j]).0);
                        }
                    }
                }
                return Some(&self.loaders[idx]);
            }
            i += 1;
        }
        None
    }

    /// The registered loader names, in registration order, for diagnostics.
    pub fn registered_names(&self) -> (r: Vec<String>)
        ensures
            r@.len() == self.mapping_spec().len(),
            forall|i: int| 0 <= i < r@.len() ==> (#[trigger] r@[i])@ == self.mapping_spec()[i].0,
    {
        let mut out: Vec<String> = Vec::new();
        let mut i: usize = 0;
        while i < self.mapping.len()
            invariant
                0 <= i <= self.mapping.len(),
                out@.len() == i,
                forall|k: int| 0 <= k < i ==> (#[trigger] out@[k])@ == self.mapping_spec()[k].0,
            decreases self.mapping.len() - i,
        {
            out.push(self.mapping[i].0.clone());
            i += 1;
        }
        out
    }

    /// The first half of a load: maps an open failure to `OpenError`, runs
    /// the compatibility gate, and only on success hands out a fresh
    /// registrar for the module's entry point — on a mismatch no registrar
    /// exists, so the entry point can never have been reached. The registry
    /// itself is untouched until `finish_load`.
    pub fn begin_load(&self, opened: Result<(PluginDeclaration, Rc<M>), String>) -> (r: Result<
        ExternalPluginRegistrar<L, M>,
        LoadError,
    >)
        ensures
            match r {
                Ok(reg) => {
                    &&& (opened matches Ok(p) && compatible(&p.0, &self.host_spec())
                        && reg.lib_spec() == p.1)
                    &&& reg.wf()
                    &&& reg.names_spec().len() == 0
                    &&& reg.proxies_spec().len() == 0
                },
                Err(e) => match e {
                    LoadError::OpenError(m) => opened matches Err(s) && m@ == s@,
                    LoadError::VersionError(_) => opened matches Ok(p) && !compatible(
                        &p.0,
                        &self.host_spec(),
                    ),
                    LoadError::RegistrationError(_) => false,
                },
            },
    {
        match opened {
            Err(m) => Err(LoadError::OpenError(m)),
            Ok((decl, lib)) => match check_declaration(&decl, &self.host) {
                Ok(()) => Ok(ExternalPluginRegistrar::new(lib)),
                Err(e) => Err(e),
            },
        }
    }

    /// Whether one load's registrations can be merged: its names pairwise
    /// distinct and none of them registered already.
    pub open spec fn accepts_names(&self, names: Seq<Seq<char>>) -> bool {
        &&& forall|i: int, j: int| 0 <= i < j < names.len() ==> names[i] != names[j]
        &&& forall|i: int| 0 <= i < names.len() ==> !self.has_name(#[trigger] names[i])
    }

    /// The second half of a load: merges one entry-point invocation's
    /// registrations, all or nothing. A duplicate name — within the load or
    /// against an earlier one — rejects the whole load and leaves the
    /// registry exactly as it was. Otherwise every proxy is appended, each
    /// name maps to its proxy's index, and the module's image handle is
    /// retained for the life of the registry.
    pub fn finish_load(&mut self, registrar: ExternalPluginRegistrar<L, M>) -> (r: Result<
        (),
        LoadError,
    >)
        requires
            old(self).wf(),
            registrar.wf(),
        ensures
            final(self).wf(),
            match r {
                Ok(()) => {
                    &&& old(self).accepts_names(registrar.names_spec())
                    &&& final(self).loaders_spec() == old(self).loaders_spec()
                        + registrar.proxies_spec()
                    &&& final(self).mapping_spec() == old(self).mapping_spec() + Seq::new(
                        registrar.names_spec().len(),
                        |i: int|
                            (registrar.names_spec()[i], old(self).loaders_spec().len() + i),
                    )
                    &&& final(self).libraries_spec() == old(self).libraries_spec().push(
                        registrar.lib_spec(),
                    )
                    &&& final(self).host_spec() == old(self).host_spec()
                },
                Err(e) => {
                    &&& e is RegistrationError
                    &&& !old(self).accepts_names(registrar.names_spec())
                    &&& *final(self) == *old(self)
                },
            },
    {
        let n = registrar.names.len();
        let mut i: usize = 0;
        while i < n
            invariant
                *self == *old(self),
                self.wf(),
                registrar.wf(),
                n == registrar.names@.len(),
                0 <= i <= n,
                forall|k: int|
                    0 <= k < i ==> !self.has_name(#[trigger] registrar.names_spec()[k]),
                forall|k: int, l: int|
                    0 <= k < i && k < l < n ==> registrar.names_spec()[k]
                        != registrar.names_spec()[l],
            decreases n - i,
        {
            if self.contains_name(&registrar.names[i]) {
                proof {
                    assert(old(self).has_name(registrar.names_spec()[i as int]));
                }
                let mut m = String::new();
                m.append("duplicate loader name: ");
                m.append(registrar.names[i].as_str());
                return Err(LoadError::RegistrationError(m));
            }
            let mut j: usize = i + 1;
            while j < n
                invariant
                    *self == *old(self),
                    old(self).wf(),
                    registrar.wf(),
                    n == registrar.names@.len(),
                    0 <= i < j <= n,
                    forall|l: int|
                        i < l < j ==> registrar.names_spec()[i as int]
                            != registrar.names_spec()[l],
                decreases n - j,
            {
                if registrar.names[i] == registrar.names[j] {
                    proof {
                        let ghost jj = j as int;
                        assert(registrar.names_spec()[i as int] == registrar.names_spec()[jj]);
                    }
                    let mut m = String::new();
                    m.append("duplicate loader name: ");
                    m.append(registrar.names[i].as_str());
                    return Err(LoadError::RegistrationError(m));
                }
                j += 1;
            }
            i += 1;
        }
        let ghost old_loaders = self.loaders@;
        let ghost old_mapping = self.mapping@;
        let ghost lsv = registrar.loaders@;
        let ghost nsv = registrar.names@;
        let mut ls = registrar.loaders;
        let mut ns = registrar.names;
        let mut k: usize = 0;
        while ls.len() > 0
            invariant
                old_loaders == old(self).loaders@,
                old_mapping == old(self).mapping@,
                lsv.len() == nsv.len(),
                lsv.len() <= usize::MAX,
                k + ls@.len() == lsv.len(),
                ns@.len() == ls@.len(),
                ls@ == lsv.skip(k as int),
                ns@ == nsv.skip(k as int),
                self.loaders@ == old_loaders + lsv.take(k as int),
                self.mapping@.len() == old_mapping.len() + k,
                forall|t: int| 0 <= t < old_mapping.len() ==> self.mapping@[t] == old_mapping[t],
                forall|t: int|
                    0 <= t < k ==> (#[trigger] self.mapping@[old_mapping.len() + t]).0 == nsv[t]
                        && self.mapping@[old_mapping.len() + t].1 == old_loaders.len() + t,
                self.libraries@ == old(self).libraries@,
                self.host == old(self).host,
            decreases ls@.len(),
        {
            let p = ls.remove(0);
            let nm = ns.remove(0);
            let ghost pre_mapping = self.mapping@;
            let idx = self.loaders.len();
            self.loaders.push(p);
            self.mapping.push((nm, idx));
            proof {
                assert(ls@ =~= lsv.skip(k as int + 1));
                assert(ns@ =~= nsv.skip(k as int + 1));
                assert(self.loaders@ =~= old_loaders + lsv.take(k as int + 1));
                assert(nm == nsv[k as int]);
                assert(idx == old_loaders.len() + k);
                assert(self.mapping@ == pre_mapping.push((nm, idx)));
            }
            k += 1;
        }
        self.libraries.push(registrar.lib);
        proof {
            let ol = old_mapping.len() as int;
            let total = Seq::new(
                registrar.names_spec().len(),
                |i: int| (registrar.names_spec()[i], old(self).loaders_spec().len() + i),
            );
            assert(self.loaders@ =~= old(self).loaders@ + lsv) by {
                assert(lsv.take(lsv.len() as int) =~= lsv);
            }
            assert forall|x: int|
                0 <= x < self.mapping_spec().len() implies self.mapping_spec()[x] == (old(
                self,
            ).mapping_spec() + total)[x] by {
                if x < ol {
                    assert(self.mapping@[x] == old_mapping[x]);
                } else {
                    assert((self.mapping@[ol + (x - ol)]).0 == nsv[x - ol]);
                    assert(self.mapping@[x].1 == old_loaders.len() + (x - ol));
                }
            }
            assert(self.mapping_spec() =~= old(self).mapping_spec() + total);
            assert forall|a: int, b: int|
                0 <= a < b < self.mapping_spec().len() implies self.mapping_spec()[a].0
                != self.mapping_spec()[b].0 by {
                if b >= ol {
                    assert(!old(self).has_name(registrar.names_spec()[b - ol]));
                }
            }
        }
        Ok(())
    }
}

} // verus!
