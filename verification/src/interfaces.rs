//! The polymorphic capability contracts plugins implement and hosts consume:
//! loader → factory → worker, plus the registrar capability a module uses to
//! register named loaders during its entry point.
//!
//! Each trait carries spec functions that an implementation defines for
//! itself; the executable methods' contracts are stated over them, so a host
//! generic over an implementation reasons from exactly what that
//! implementation declares of itself.

use vstd::prelude::*;

verus! {

/// One unit of input fed to a worker.
pub struct DataBuffer {
    pub data: i64,
}

/// A worker accumulates inputs one at a time and can render its current
/// state at any time; it has a single state, "accumulating", entered on
/// construction, and every successful consume is a self-transition.
pub trait PluginWorker where Self: core::marker::Sized {
    /// The worker's internal consistency condition.
    spec fn wf(&self) -> bool;

    /// Which input values the worker accepts in its current state.
    spec fn accepts(&self, value: i64) -> bool;

    /// How one accepted input transforms the worker.
    spec fn step(&self, value: i64, next: Self) -> bool;

    /// What `render` returns in the worker's current state.
    spec fn rendering(&self) -> Seq<char>;

    /// Feed one unit of input. Succeeds exactly on values the worker
    /// accepts; a rejected value leaves the worker unchanged.
    fn consume_inputs(&mut self, buffer: DataBuffer) -> (r: Result<(), String>)
        requires
            old(self).wf(),
        ensures
            final(self).wf(),
            r is Ok <==> old(self).accepts(buffer.data),
            r is Ok ==> old(self).step(buffer.data, *final(self)),
            r is Err ==> *final(self) == *old(self),
    ;

    /// A human-readable rendering of the current accumulated state.
    fn render(&self) -> (r: String)
        requires
            self.wf(),
        ensures
            r@ == self.rendering(),
    ;
}

/// A factory constructs fresh, independent workers over shared state;
/// workers from one factory never interfere with one another.
pub trait PluginFactory<'a> {
    type W: PluginWorker;

    /// What a freshly constructed worker looks like.
    spec fn fresh(&self, w: Self::W) -> bool;

    fn new_worker(&self) -> (w: Self::W)
        ensures
            w.wf(),
            self.fresh(w),
    ;
}

/// A loader turns opaque input bytes into a factory bound to those bytes.
/// Construction never fails: parsing, if any, is deferred to the workers.
pub trait PluginLoader<'a> {
    type F: PluginFactory<'a>;

    /// How the returned factory relates to the given bytes.
    spec fn loaded(&self, bytes: Seq<u8>, f: Self::F) -> bool;

    fn load_factory_from_bytes(&self, bytes: &'a [u8]) -> (f: Self::F)
        ensures
            self.loaded(bytes@, f),
    ;
}

/// The capability a host hands to a module's entry point, valid only for the
/// duration of that call: registering a loader appends one (name, loader)
/// pair, in insertion order, and nothing else of the host is reachable
/// through it.
pub trait PluginRegistrar<L> {
    /// The registrar's internal consistency condition.
    spec fn inv(&self) -> bool;

    /// The (name, loader) pairs accumulated so far, in insertion order.
    spec fn entries(&self) -> Seq<(Seq<char>, L)>;

    fn register_loader(&mut self, name: &str, loader: L)
        requires
            old(self).inv(),
        ensures
            final(self).inv(),
            final(self).entries() == old(self).entries().push((name@, loader)),
    ;
}

} // verus!
