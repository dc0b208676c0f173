//! The state of one running instance: its mailbox, the failures it has
//! captured, its resource tables, and the module it is loading.

use crate::table::{HashMapId, TableModel};
use crate::wasi::api::WasiState;
use crate::wasi::types::WASI_ESUCCESS;
use tokio::sync::mpsc::error::TryRecvError;
use tokio::sync::mpsc::UnboundedReceiver;
use vstd::prelude::*;

verus! {

/// The receiving end of tokio's unbounded channel: the mailbox of an
/// instance. What is in it depends on who has sent, so nothing is known of it.
#[verifier::external_type_specification]
#[verifier::external_body]
#[verifier::reject_recursive_types(T)]
pub struct ExUnboundedReceiver<T>(UnboundedReceiver<T>);

/// What a look into the mailbox found.
#[derive(Debug, PartialEq, Eq)]
pub enum Received<Msg> {
    /// The message that had waited longest.
    Message(Msg),
    /// No message waits, but one may still come.
    Empty,
    /// No message waits and none can come: every sender is gone.
    Disconnected,
}

/// `UnboundedReceiver::try_recv`: takes the next message out of the mailbox
/// without waiting, or says why there is none. Which of the three comes back
/// depends on the senders.
#[verifier::external_body]
fn mailbox_try_recv<Msg>(mailbox: &mut UnboundedReceiver<Msg>) -> Received<Msg> {
    match mailbox.try_recv() {
        Ok(message) => Received::Message(message),
        Err(TryRecvError::Empty) => Received::Empty,
        Err(TryRecvError::Disconnected) => Received::Disconnected,
    }
}

/// Why a module could not be put up for loading.
#[derive(Clone, Copy, Debug, PartialEq, Eq)]
pub enum LoadError {
    /// Another module is being loaded and has not been taken yet.
    AlreadyLoading,
}

/// The resources of an instance, one table for each kind. Each table numbers
/// its own entries: a config and a process with the same identifier have
/// nothing to do with each other.
pub struct Resources<Config, Environment, Module, Process> {
    pub configs: HashMapId<Config>,
    pub environments: HashMapId<Environment>,
    pub modules: HashMapId<Module>,
    pub processes: HashMapId<Process>,
}

impl<Config, Environment, Module, Process> Resources<Config, Environment, Module, Process> {
    /// Whether all four tables are well formed.
    pub open spec fn wf(&self) -> bool {
        &&& self.configs@.wf()
        &&& self.environments@.wf()
        &&& self.modules@.wf()
        &&& self.processes@.wf()
    }

    /// Whether all four tables are empty and have issued nothing.
    pub open spec fn is_fresh(&self) -> bool {
        &&& self.configs@ == TableModel::<Config>::empty()
        &&& self.environments@ == TableModel::<Environment>::empty()
        &&& self.modules@ == TableModel::<Module>::empty()
        &&& self.processes@ == TableModel::<Process>::empty()
    }
}

impl<Config, Environment, Module, Process> Default for Resources<
    Config,
    Environment,
    Module,
    Process,
> {
    fn default() -> (resources: Self)
        ensures
            resources.is_fresh(),
            resources.wf(),
    {
        Resources {
            configs: HashMapId::new(),
            environments: HashMapId::new(),
            modules: HashMapId::new(),
            processes: HashMapId::new(),
        }
    }
}

/// The state of one instance. Every host function that the instance calls
/// works on it, and nothing else does.
#[verifier::reject_recursive_types(Msg)]
pub struct State<Msg, Config, Environment, Module, Process> {
    /// Messages sent to the instance.
    pub mailbox: UnboundedReceiver<Msg>,
    /// Failures of earlier calls, which the guest asks about by identifier.
    pub errors: HashMapId<anyhow::Error>,
    /// The resources of the instance.
    pub resources: Resources<Config, Environment, Module, Process>,
    /// The legacy system-call surface.
    pub wasi: WasiState,
    /// The bytes of the module that is being loaded, from the moment loading
    /// begins until they are taken to be compiled.
    pub module_loaded: Option<Vec<u8>>,
}

impl<Msg, Config, Environment, Module, Process> State<Msg, Config, Environment, Module, Process> {
    /// Whether the error table and the resource tables are well formed.
    pub open spec fn wf(&self) -> bool {
        self.errors@.wf() && self.resources.wf()
    }

    /// Whether `self` has the same tables, with the same contents, as `other`.
    pub open spec fn same_tables(&self, other: &Self) -> bool {
        self.errors == other.errors && self.resources == other.resources
    }

    /// The state of an instance that starts with `mailbox`: no failure
    /// captured, no resource, no module being loaded.
    pub fn new(mailbox: UnboundedReceiver<Msg>) -> (state: Self)
        ensures
            state.mailbox == mailbox,
            state.errors@ == TableModel::<anyhow::Error>::empty(),
            state.resources.is_fresh(),
            state.module_loaded is None,
            state.wf(),
    {
        Self {
            mailbox,
            errors: HashMapId::new(),
            resources: Resources::default(),
            wasi: WasiState::new(),
            module_loaded: None,
        }
    }

    /// Takes the next message out of the mailbox if one waits there. Nothing
    /// else in the state changes.
    pub fn try_receive(&mut self) -> (received: Received<Msg>)
        ensures
            final(self).same_tables(old(self)),
            final(self).module_loaded == old(self).module_loaded,
    {
        mailbox_try_recv(&mut self.mailbox)
    }

    /// Puts the bytes of a module up for loading. Only one module can be
    /// loading at a time: while the bytes of an earlier one have not been
    /// taken, the call is refused and the state stays as it is.
    pub fn begin_module_load(&mut self, module: Vec<u8>) -> (outcome: Result<(), LoadError>)
        ensures
            final(self).same_tables(old(self)),
            final(self).mailbox == old(self).mailbox,
            match outcome {
                Ok(_) => old(self).module_loaded is None && final(self).module_loaded == Some(
                    module,
                ),
                Err(e) => {
                    &&& e == LoadError::AlreadyLoading
                    &&& old(self).module_loaded is Some
                    &&& final(self).module_loaded == old(self).module_loaded
                },
            },
    {
        if self.module_loaded.is_some() {
            return Err(LoadError::AlreadyLoading);
        }
        self.module_loaded = Some(module);
        Ok(())
    }

    /// Takes the bytes of the module that is being loaded, if there is one,
    /// and leaves the slot free for the next.
    pub fn finish_module_load(&mut self) -> (module: Option<Vec<u8>>)
        ensures
            module == old(self).module_loaded,
            final(self).module_loaded is None,
            final(self).same_tables(old(self)),
            final(self).mailbox == old(self).mailbox,
    {
        self.module_loaded.take()
    }

    /// The cooperative yield as the instance sees it: the worker goes to the
    /// other ready instances, and when the instance runs again it finds its
    /// state as it left it: the tables, the module it is loading, the mailbox
    /// it receives from and the system-call surface.
    pub fn sched_yield(&mut self) -> (status: u32)
        ensures
            status == WASI_ESUCCESS,
            final(self).same_tables(old(self)),
            final(self).module_loaded == old(self).module_loaded,
            final(self).mailbox == old(self).mailbox,
            final(self).wasi == old(self).wasi,
    {
        self.wasi.sched_yield()
    }
}

} // verus!
