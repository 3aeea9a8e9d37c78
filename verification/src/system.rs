//! The top-level registry: one table per kind of managed object, and the
//! handle-addressed operations the host drives against them.
//!
//! Every operation first resolves its handle in the table of the right
//! kind — failing with `NotFound` for a handle that was never issued — and
//! then acts on the owned object. Locking and blocking live with the host;
//! each operation here is one atomic step of the state.

use crate::isolate::EngineCreation;
use crate::isolate::EnginePoll;
use crate::isolate::InterpreterInstance;
use crate::isolate::PollStatus;
use crate::modules::LoadAnswer;
use crate::modules::LoadRequest;
use crate::modules::ModuleLoader;
use crate::modules::ResolveAnswer;
use crate::modules::ResolveRequest;
use crate::relay::Relay;
use crate::relay::RelayView;
use crate::table::ResourceTable;
use vstd::prelude::*;

verus! {

/// Why a handle-addressed operation failed. Protocol violations and engine
/// failures are both surfaced here; none of them panics the servicing
/// thread.
#[derive(Clone, PartialEq, Eq, Debug)]
pub enum OpError {
    /// The handle was never issued by the addressed table.
    NotFound,
    /// No waiting response slot is registered under the correlation id.
    UnknownCorrelationId,
    /// The operation requires a byte buffer and none was supplied.
    MissingPayload,
    /// The relay has issued every 32-bit correlation id.
    CorrelationIdsExhausted,
    /// The given startup snapshot blob was malformed.
    InvalidSnapshot,
    /// The instance already has a call sink; rebinding is not supported.
    CallSinkAlreadyBound,
    /// No execution is in flight on the instance.
    NotRunning,
    /// The instance was not created with snapshotting enabled.
    SnapshotDisabled,
    /// The instance has an execution in flight.
    Busy,
    /// The instance was snapshotted and mutates no further.
    AlreadySnapshotted,
    /// The engine reported an unrecoverable internal error.
    EngineFailure(String),
}

/// One foreign call as queued on a call relay: the payload plus the
/// optional raw side-channel buffer.
#[derive(Debug, Clone, PartialEq, Eq)]
pub struct CallRequest {
    pub data: Vec<u8>,
    pub zero_copy: Option<Vec<u8>>,
}

/// The relay used for foreign-function dispatch: requests carry bytes, and
/// every response is a byte buffer.
pub type CallRelay = Relay<CallRequest, Vec<u8>>;

/// The top-level registry. Each kind of managed object has its own table
/// and so its own handle space.
pub struct System {
    pub call_relays: ResourceTable<CallRelay>,
    pub loaders: ResourceTable<ModuleLoader>,
    pub interpreters: ResourceTable<InterpreterInstance>,
    pub snapshots: ResourceTable<Vec<u8>>,
}

impl System {
    /// Every stored relay is well-formed.
    pub open spec fn wf(self) -> bool {
        &&& forall|h: u32|
            self.call_relays.contains_handle(h) ==> (#[trigger] self.call_relays.at(h))@.wf()
        &&& forall|h: u32|
            self.loaders.contains_handle(h) ==> (#[trigger] self.loaders.at(h)).wf()
    }

    /// Only the call-relay table differs between `self` and `post`, and
    /// there only the entry under `rid`, whose state is `v`.
    pub open spec fn call_relay_updated(
        self,
        post: System,
        rid: u32,
        v: RelayView<CallRequest, Vec<u8>>,
    ) -> bool {
        &&& post.call_relays@.len() == self.call_relays@.len()
        &&& post.call_relays.at(rid)@ == v
        &&& forall|h: u32|
            self.call_relays.contains_handle(h) && h != rid ==> #[trigger] post.call_relays.at(h)
                == self.call_relays.at(h)
        &&& post.loaders == self.loaders
        &&& post.interpreters == self.interpreters
        &&& post.snapshots == self.snapshots
    }

    /// The observable state of `self` and `post` is the same: every table
    /// holds the same objects under the same handles.
    pub open spec fn state_eq(self, post: System) -> bool {
        &&& post.call_relays@ == self.call_relays@
        &&& post.loaders@ == self.loaders@
        &&& post.interpreters@ == self.interpreters@
        &&& post.snapshots@ == self.snapshots@
    }

    /// An empty registry: no handles issued in any handle space.
    pub fn new() -> (s: System)
        ensures
            s.wf(),
            s.call_relays@ == Seq::<CallRelay>::empty(),
            s.loaders@ == Seq::<ModuleLoader>::empty(),
            s.interpreters@ == Seq::<InterpreterInstance>::empty(),
            s.snapshots@ == Seq::<Vec<u8>>::empty(),
    {
        System {
            call_relays: ResourceTable::new(),
            loaders: ResourceTable::new(),
            interpreters: ResourceTable::new(),
            snapshots: ResourceTable::new(),
        }
    }

    /// Registers a fresh call relay and returns its handle. Never fails;
    /// the bound on the table is a machine limit of the 32-bit handle
    /// space.
    pub fn new_call_relay(&mut self) -> (h: u32)
        requires
            old(self).wf(),
            old(self).call_relays@.len() < u32::MAX as int,
        ensures
            final(self).wf(),
            !old(self).call_relays.contains_handle(h),
            final(self).call_relays.contains_handle(h),
            h as int == old(self).call_relays@.len() + 1,
            final(self).call_relays@.len() == old(self).call_relays@.len() + 1,
            final(self).call_relays.at(h)@ == (RelayView::<CallRequest, Vec<u8>> {
                next_id: 0u32,
                queue: Seq::empty(),
                slots: Map::empty(),
            }),
            forall|g: u32|
                old(self).call_relays.contains_handle(g)
                    ==> #[trigger] final(self).call_relays.at(g) == old(self).call_relays.at(g),
            final(self).loaders == old(self).loaders,
            final(self).interpreters == old(self).interpreters,
            final(self).snapshots == old(self).snapshots,
    {
        let relay = Relay::new();
        let h = self.call_relays.allocate(relay);
        proof {
            assert forall|h2: u32| self.call_relays.contains_handle(h2) implies (
            #[trigger] self.call_relays.at(h2))@.wf() by {
                if h2 != h {
                    assert(self.call_relays.at(h2) == old(self).call_relays.at(h2));
                }
            }
        }
        h
    }

    /// The synchronous half of a foreign call against the relay under
    /// `rid`: assigns a fresh correlation id, registers its response slot
    /// and queues the request. Succeeds if and only if `rid` is a known
    /// relay handle with ids remaining; the caller then polls
    /// `call_take_response` with the returned id.
    pub fn call_dispatch(&mut self, rid: u32, req: CallRequest) -> (r: Result<u32, OpError>)
        requires
            old(self).wf(),
        ensures
            final(self).wf(),
            match r {
                Ok(id) => {
                    &&& old(self).call_relays.contains_handle(rid)
                    &&& old(self).call_relays.at(rid)@.next_id < u32::MAX
                    &&& id == old(self).call_relays.at(rid)@.next_id
                    &&& old(self).call_relay_updated(
                        *final(self),
                        rid,
                        old(self).call_relays.at(rid)@.enqueued(req),
                    )
                },
                Err(e) => {
                    &&& old(self).state_eq(*final(self))
                    &&& match e {
                        OpError::NotFound => !old(self).call_relays.contains_handle(rid),
                        OpError::CorrelationIdsExhausted => old(self).call_relays.contains_handle(
                            rid,
                        ) && old(self).call_relays.at(rid)@.next_id == u32::MAX,
                        _ => false,
                    }
                },
            },
    {
        if !self.call_relays.contains(rid) {
            return Err(OpError::NotFound);
        }
        proof {
            assert(old(self).call_relays.at(rid)@.wf());
        }
        let mut relay = self.call_relays.replace(rid, Relay::new());
        if !relay.can_assign_id() {
            let placeholder = self.call_relays.replace(rid, relay);
            proof {
                assert(self.call_relays@ =~= old(self).call_relays@);
                assert forall|h2: u32| self.call_relays.contains_handle(h2) implies (
                #[trigger] self.call_relays.at(h2))@.wf() by {
                    assert(self.call_relays.at(h2) == old(self).call_relays.at(h2));
                }
            }
            return Err(OpError::CorrelationIdsExhausted);
        }
        let id = relay.dispatch_enqueue(req);
        let placeholder = self.call_relays.replace(rid, relay);
        proof {
            assert forall|h2: u32| self.call_relays.contains_handle(h2) implies (
            #[trigger] self.call_relays.at(h2))@.wf() by {
                if h2 != rid {
                    assert(self.call_relays.at(h2) == old(self).call_relays.at(h2));
                }
            }
        }
        Ok(id)
    }

    /// The consumer's poll against the relay under `rid`: removes and
    /// returns the oldest pending request, or `None` when the queue is
    /// empty. Fails only when `rid` is not a known relay handle.
    pub fn call_wait_for_next(&mut self, rid: u32) -> (r: Result<
        Option<(u32, CallRequest)>,
        OpError,
    >)
        requires
            old(self).wf(),
        ensures
            final(self).wf(),
            match r {
                Ok(item) => {
                    &&& old(self).call_relays.contains_handle(rid)
                    &&& match item {
                        Some(entry) => old(self).call_relays.at(rid)@.queue.len() > 0
                            && entry == old(self).call_relays.at(rid)@.queue[0]
                            && old(self).call_relay_updated(
                                *final(self),
                                rid,
                                old(self).call_relays.at(rid)@.popped(),
                            ),
                        None => old(self).call_relays.at(rid)@.queue.len() == 0 && old(
                            self,
                        ).state_eq(*final(self)),
                    }
                },
                Err(e) => e == OpError::NotFound && !old(self).call_relays.contains_handle(rid)
                    && old(self).state_eq(*final(self)),
            },
    {
        if !self.call_relays.contains(rid) {
            return Err(OpError::NotFound);
        }
        proof {
            assert(old(self).call_relays.at(rid)@.wf());
        }
        let mut relay = self.call_relays.replace(rid, Relay::new());
        let item = relay.wait_for_next();
        let placeholder = self.call_relays.replace(rid, relay);
        proof {
            if item is None {
                assert(self.call_relays@ =~= old(self).call_relays@);
            }
        }
        proof {
            assert forall|h2: u32| self.call_relays.contains_handle(h2) implies (
            #[trigger] self.call_relays.at(h2))@.wf() by {
                if h2 != rid {
                    assert(self.call_relays.at(h2) == old(self).call_relays.at(h2));
                }
            }
        }
        Ok(item)
    }

    /// The consumer's answer to the foreign call with correlation id
    /// `cmd_id` on the relay under `rid`. The response bytes are mandatory;
    /// answering without them is a protocol violation. Succeeds if and only
    /// if the handle is known, the buffer is present and a waiting slot is
    /// registered under `cmd_id`; every failure leaves all state unchanged,
    /// so no other pending call is disturbed.
    pub fn call_respond(&mut self, rid: u32, cmd_id: u32, buf: Option<Vec<u8>>) -> (r: Result<
        (),
        OpError,
    >)
        requires
            old(self).wf(),
        ensures
            final(self).wf(),
            match r {
                Ok(()) => {
                    &&& old(self).call_relays.contains_handle(rid)
                    &&& buf matches Some(b) && old(self).call_relay_updated(
                        *final(self),
                        rid,
                        old(self).call_relays.at(rid)@.responded(cmd_id, b),
                    )
                    &&& old(self).call_relays.at(rid)@.can_respond(cmd_id)
                },
                Err(e) => {
                    &&& old(self).state_eq(*final(self))
                    &&& match e {
                        OpError::NotFound => !old(self).call_relays.contains_handle(rid),
                        OpError::MissingPayload => old(self).call_relays.contains_handle(rid)
                            && buf is None,
                        OpError::UnknownCorrelationId => old(self).call_relays.contains_handle(rid)
                            && buf is Some && !old(self).call_relays.at(rid)@.can_respond(cmd_id),
                        _ => false,
                    }
                },
            },
    {
        if !self.call_relays.contains(rid) {
            return Err(OpError::NotFound);
        }
        let data = match buf {
            Some(b) => b,
            None => {
                return Err(OpError::MissingPayload);
            },
        };
        proof {
            assert(old(self).call_relays.at(rid)@.wf());
        }
        let mut relay = self.call_relays.replace(rid, Relay::new());
        let out = relay.respond(cmd_id, data);
        let placeholder = self.call_relays.replace(rid, relay);
        proof {
            assert forall|h2: u32| self.call_relays.contains_handle(h2) implies (
            #[trigger] self.call_relays.at(h2))@.wf() by {
                if h2 != rid {
                    assert(self.call_relays.at(h2) == old(self).call_relays.at(h2));
                }
            }
        }
        match out {
            Ok(()) => Ok(()),
            Err(_) => {
                proof {
                    assert(self.call_relays@ =~= old(self).call_relays@);
                }
                Err(OpError::UnknownCorrelationId)
            },
        }
    }

    /// The synchronous side's poll for its answer: consumes the response
    /// written for `cmd_id` on the relay under `rid`, removing the slot so
    /// the answer is delivered exactly once. `Ok(None)` means no response
    /// has been written yet; the caller keeps waiting.
    pub fn call_take_response(&mut self, rid: u32, cmd_id: u32) -> (r: Result<
        Option<Vec<u8>>,
        OpError,
    >)
        requires
            old(self).wf(),
        ensures
            final(self).wf(),
            match r {
                Ok(res) => {
                    &&& old(self).call_relays.contains_handle(rid)
                    &&& match res {
                        Some(bytes) => old(self).call_relays.at(rid)@.take_result(cmd_id)
                            == Some(bytes)
                            && old(self).call_relay_updated(
                                *final(self),
                                rid,
                                old(self).call_relays.at(rid)@.taken(cmd_id),
                            ),
                        None => old(self).call_relays.at(rid)@.take_result(cmd_id) is None
                            && old(self).state_eq(*final(self)),
                    }
                },
                Err(e) => e == OpError::NotFound && !old(self).call_relays.contains_handle(rid)
                    && old(self).state_eq(*final(self)),
            },
    {
        if !self.call_relays.contains(rid) {
            return Err(OpError::NotFound);
        }
        proof {
            assert(old(self).call_relays.at(rid)@.wf());
        }
        let mut relay = self.call_relays.replace(rid, Relay::new());
        let res = relay.take_response(cmd_id);
        let placeholder = self.call_relays.replace(rid, relay);
        proof {
            if res is None {
                assert(self.call_relays@ =~= old(self).call_relays@);
            }
        }
        proof {
            assert forall|h2: u32| self.call_relays.contains_handle(h2) implies (
            #[trigger] self.call_relays.at(h2))@.wf() by {
                if h2 != rid {
                    assert(self.call_relays.at(h2) == old(self).call_relays.at(h2));
                }
            }
        }
        Ok(res)
    }

    /// Registers a fresh standard loader — a resolve relay and a load relay
    /// sharing one handle — and returns that handle. Never fails; the bound
    /// on the table is a machine limit of the 32-bit handle space.
    pub fn new_loader(&mut self) -> (h: u32)
        requires
            old(self).wf(),
            old(self).loaders@.len() < u32::MAX as int,
        ensures
            final(self).wf(),
            !old(self).loaders.contains_handle(h),
            final(self).loaders.contains_handle(h),
            h as int == old(self).loaders@.len() + 1,
            final(self).loaders@.len() == old(self).loaders@.len() + 1,
            final(self).loaders.at(h).resolve@ == (RelayView::<ResolveRequest, ResolveAnswer> {
                next_id: 0u32,
                queue: Seq::empty(),
                slots: Map::empty(),
            }),
            final(self).loaders.at(h).load@ == (RelayView::<LoadRequest, LoadAnswer> {
                next_id: 0u32,
                queue: Seq::empty(),
                slots: Map::empty(),
            }),
            forall|g: u32|
                old(self).loaders.contains_handle(g)
                    ==> #[trigger] final(self).loaders.at(g) == old(self).loaders.at(g),
            final(self).call_relays == old(self).call_relays,
            final(self).interpreters == old(self).interpreters,
            final(self).snapshots == old(self).snapshots,
    {
        let loader = ModuleLoader::new();
        let h = self.loaders.allocate(loader);
        proof {
            assert forall|h2: u32| self.loaders.contains_handle(h2) implies (
            #[trigger] self.loaders.at(h2)).wf() by {
                if h2 != h {
                    assert(self.loaders.at(h2) == old(self).loaders.at(h2));
                }
            }
        }
        h
    }

    /// Only the loader table differs between `self` and `post`, and there
    /// only the entry under `rid`, whose two relays are in states `res` and
    /// `loa`.
    pub open spec fn loader_updated(
        self,
        post: System,
        rid: u32,
        res: RelayView<ResolveRequest, ResolveAnswer>,
        loa: RelayView<LoadRequest, LoadAnswer>,
    ) -> bool {
        &&& post.loaders@.len() == self.loaders@.len()
        &&& post.loaders.at(rid).resolve@ == res
        &&& post.loaders.at(rid).load@ == loa
        &&& forall|h: u32|
            self.loaders.contains_handle(h) && h != rid ==> #[trigger] post.loaders.at(h)
                == self.loaders.at(h)
        &&& post.call_relays == self.call_relays
        &&& post.interpreters == self.interpreters
        &&& post.snapshots == self.snapshots
    }

    /// The engine's resolution request against the loader under `rid`:
    /// queues it on the resolve relay under a fresh correlation id.
    /// Succeeds if and only if `rid` is a known loader handle with ids
    /// remaining.
    pub fn resolve_dispatch(&mut self, rid: u32, req: ResolveRequest) -> (r: Result<u32, OpError>)
        requires
            old(self).wf(),
        ensures
            final(self).wf(),
            match r {
                Ok(id) => {
                    &&& old(self).loaders.contains_handle(rid)
                    &&& old(self).loaders.at(rid).resolve@.next_id < u32::MAX
                    &&& id == old(self).loaders.at(rid).resolve@.next_id
                    &&& old(self).loader_updated(
                        *final(self),
                        rid,
                        old(self).loaders.at(rid).resolve@.enqueued(req),
                        old(self).loaders.at(rid).load@,
                    )
                },
                Err(e) => {
                    &&& old(self).state_eq(*final(self))
                    &&& match e {
                        OpError::NotFound => !old(self).loaders.contains_handle(rid),
                        OpError::CorrelationIdsExhausted => old(self).loaders.contains_handle(rid)
                            && old(self).loaders.at(rid).resolve@.next_id == u32::MAX,
                        _ => false,
                    }
                },
            },
    {
        if !self.loaders.contains(rid) {
            return Err(OpError::NotFound);
        }
        proof {
            assert(old(self).loaders.at(rid).wf());
        }
        let mut loader = self.loaders.replace(rid, ModuleLoader::new());
        if !loader.resolve.can_assign_id() {
            let placeholder = self.loaders.replace(rid, loader);
            proof {
                assert(self.loaders@ =~= old(self).loaders@);
                self.lemma_loaders_wf_from_eq(*old(self));
            }
            return Err(OpError::CorrelationIdsExhausted);
        }
        let id = loader.resolve.dispatch_enqueue(req);
        let placeholder = self.loaders.replace(rid, loader);
        proof {
            self.lemma_loaders_wf_update(*old(self), rid);
        }
        Ok(id)
    }

    /// The consumer's poll for the next resolution request on the loader
    /// under `rid`: removes and returns the oldest pending one, or `None`
    /// when none is pending.
    pub fn resolve_wait_for_next(&mut self, rid: u32) -> (r: Result<
        Option<(u32, ResolveRequest)>,
        OpError,
    >)
        requires
            old(self).wf(),
        ensures
            final(self).wf(),
            match r {
                Ok(item) => {
                    &&& old(self).loaders.contains_handle(rid)
                    &&& match item {
                        Some(entry) => old(self).loaders.at(rid).resolve@.queue.len() > 0
                            && entry == old(self).loaders.at(rid).resolve@.queue[0]
                            && old(self).loader_updated(
                                *final(self),
                                rid,
                                old(self).loaders.at(rid).resolve@.popped(),
                                old(self).loaders.at(rid).load@,
                            ),
                        None => old(self).loaders.at(rid).resolve@.queue.len() == 0 && old(
                            self,
                        ).state_eq(*final(self)),
                    }
                },
                Err(e) => e == OpError::NotFound && !old(self).loaders.contains_handle(rid) && old(
                    self,
                ).state_eq(*final(self)),
            },
    {
        if !self.loaders.contains(rid) {
            return Err(OpError::NotFound);
        }
        proof {
            assert(old(self).loaders.at(rid).wf());
        }
        let mut loader = self.loaders.replace(rid, ModuleLoader::new());
        let item = loader.resolve.wait_for_next();
        let placeholder = self.loaders.replace(rid, loader);
        proof {
            if item is None {
                assert(self.loaders@ =~= old(self).loaders@);
                self.lemma_loaders_wf_from_eq(*old(self));
            } else {
                self.lemma_loaders_wf_update(*old(self), rid);
            }
        }
        Ok(item)
    }

    /// The consumer's answer to the resolution request with correlation id
    /// `cmd_id` on the loader under `rid`: the resolved canonical specifier,
    /// or a resolution failure, handed to the waiting engine-side caller.
    /// Succeeds if and only if the handle is known and a waiting slot is
    /// registered under `cmd_id`; every failure leaves all state unchanged.
    pub fn resolve_respond(&mut self, rid: u32, cmd_id: u32, answer: ResolveAnswer) -> (r: Result<
        (),
        OpError,
    >)
        requires
            old(self).wf(),
        ensures
            final(self).wf(),
            match r {
                Ok(()) => {
                    &&& old(self).loaders.contains_handle(rid)
                    &&& old(self).loaders.at(rid).resolve@.can_respond(cmd_id)
                    &&& old(self).loader_updated(
                        *final(self),
                        rid,
                        old(self).loaders.at(rid).resolve@.responded(cmd_id, answer),
                        old(self).loaders.at(rid).load@,
                    )
                },
                Err(e) => {
                    &&& old(self).state_eq(*final(self))
                    &&& match e {
                        OpError::NotFound => !old(self).loaders.contains_handle(rid),
                        OpError::UnknownCorrelationId => old(self).loaders.contains_handle(rid)
                            && !old(self).loaders.at(rid).resolve@.can_respond(cmd_id),
                        _ => false,
                    }
                },
            },
    {
        if !self.loaders.contains(rid) {
            return Err(OpError::NotFound);
        }
        proof {
            assert(old(self).loaders.at(rid).wf());
        }
        let mut loader = self.loaders.replace(rid, ModuleLoader::new());
        let out = loader.resolve.respond(cmd_id, answer);
        let placeholder = self.loaders.replace(rid, loader);
        match out {
            Ok(()) => {
                proof {
                    self.lemma_loaders_wf_update(*old(self), rid);
                }
                Ok(())
            },
            Err(_) => {
                proof {
                    assert(self.loaders@ =~= old(self).loaders@);
                    self.lemma_loaders_wf_from_eq(*old(self));
                }
                Err(OpError::UnknownCorrelationId)
            },
        }
    }

    /// The engine side's poll for the answer to its resolution request:
    /// consumes the response written for `cmd_id` on the loader under
    /// `rid`, removing the slot. `Ok(None)` means no answer yet.
    pub fn resolve_take_response(&mut self, rid: u32, cmd_id: u32) -> (r: Result<
        Option<ResolveAnswer>,
        OpError,
    >)
        requires
            old(self).wf(),
        ensures
            final(self).wf(),
            match r {
                Ok(res) => {
                    &&& old(self).loaders.contains_handle(rid)
                    &&& match res {
                        Some(answer) => old(self).loaders.at(rid).resolve@.take_result(cmd_id)
                            == Some(answer)
                            && old(self).loader_updated(
                                *final(self),
                                rid,
                                old(self).loaders.at(rid).resolve@.taken(cmd_id),
                                old(self).loaders.at(rid).load@,
                            ),
                        None => old(self).loaders.at(rid).resolve@.take_result(cmd_id) is None
                            && old(self).state_eq(*final(self)),
                    }
                },
                Err(e) => e == OpError::NotFound && !old(self).loaders.contains_handle(rid) && old(
                    self,
                ).state_eq(*final(self)),
            },
    {
        if !self.loaders.contains(rid) {
            return Err(OpError::NotFound);
        }
        proof {
            assert(old(self).loaders.at(rid).wf());
        }
        let mut loader = self.loaders.replace(rid, ModuleLoader::new());
        let res = loader.resolve.take_response(cmd_id);
        let placeholder = self.loaders.replace(rid, loader);
        proof {
            if res is None {
                assert(self.loaders@ =~= old(self).loaders@);
                self.lemma_loaders_wf_from_eq(*old(self));
            } else {
                self.lemma_loaders_wf_update(*old(self), rid);
            }
        }
        Ok(res)
    }

    /// The engine's source-fetch request against the loader under `rid`:
    /// queues it on the load relay under a fresh correlation id. Succeeds
    /// if and only if `rid` is a known loader handle with ids remaining.
    pub fn load_dispatch(&mut self, rid: u32, req: LoadRequest) -> (r: Result<u32, OpError>)
        requires
            old(self).wf(),
        ensures
            final(self).wf(),
            match r {
                Ok(id) => {
                    &&& old(self).loaders.contains_handle(rid)
                    &&& old(self).loaders.at(rid).load@.next_id < u32::MAX
                    &&& id == old(self).loaders.at(rid).load@.next_id
                    &&& old(self).loader_updated(
                        *final(self),
                        rid,
                        old(self).loaders.at(rid).resolve@,
                        old(self).loaders.at(rid).load@.enqueued(req),
                    )
                },
                Err(e) => {
                    &&& old(self).state_eq(*final(self))
                    &&& match e {
                        OpError::NotFound => !old(self).loaders.contains_handle(rid),
                        OpError::CorrelationIdsExhausted => old(self).loaders.contains_handle(rid)
                            && old(self).loaders.at(rid).load@.next_id == u32::MAX,
                        _ => false,
                    }
                },
            },
    {
        if !self.loaders.contains(rid) {
            return Err(OpError::NotFound);
        }
        proof {
            assert(old(self).loaders.at(rid).wf());
        }
        let mut loader = self.loaders.replace(rid, ModuleLoader::new());
        if !loader.load.can_assign_id() {
            let placeholder = self.loaders.replace(rid, loader);
            proof {
                assert(self.loaders@ =~= old(self).loaders@);
                self.lemma_loaders_wf_from_eq(*old(self));
            }
            return Err(OpError::CorrelationIdsExhausted);
        }
        let id = loader.load.dispatch_enqueue(req);
        let placeholder = self.loaders.replace(rid, loader);
        proof {
            self.lemma_loaders_wf_update(*old(self), rid);
        }
        Ok(id)
    }

    /// The consumer's poll for the next source-fetch request on the loader
    /// under `rid`: removes and returns the oldest pending one, or `None`
    /// when none is pending.
    pub fn load_wait_for_next(&mut self, rid: u32) -> (r: Result<
        Option<(u32, LoadRequest)>,
        OpError,
    >)
        requires
            old(self).wf(),
        ensures
            final(self).wf(),
            match r {
                Ok(item) => {
                    &&& old(self).loaders.contains_handle(rid)
                    &&& match item {
                        Some(entry) => old(self).loaders.at(rid).load@.queue.len() > 0
                            && entry == old(self).loaders.at(rid).load@.queue[0]
                            && old(self).loader_updated(
                                *final(self),
                                rid,
                                old(self).loaders.at(rid).resolve@,
                                old(self).loaders.at(rid).load@.popped(),
                            ),
                        None => old(self).loaders.at(rid).load@.queue.len() == 0 && old(
                            self,
                        ).state_eq(*final(self)),
                    }
                },
                Err(e) => e == OpError::NotFound && !old(self).loaders.contains_handle(rid) && old(
                    self,
                ).state_eq(*final(self)),
            },
    {
        if !self.loaders.contains(rid) {
            return Err(OpError::NotFound);
        }
        proof {
            assert(old(self).loaders.at(rid).wf());
        }
        let mut loader = self.loaders.replace(rid, ModuleLoader::new());
        let item = loader.load.wait_for_next();
        let placeholder = self.loaders.replace(rid, loader);
        proof {
            if item is None {
                assert(self.loaders@ =~= old(self).loaders@);
                self.lemma_loaders_wf_from_eq(*old(self));
            } else {
                self.lemma_loaders_wf_update(*old(self), rid);
            }
        }
        Ok(item)
    }

    /// The consumer's answer to the source-fetch request with correlation
    /// id `cmd_id` on the loader under `rid`: the found URL and source
    /// text, or a load failure, handed to the waiting engine-side caller.
    /// Succeeds if and only if the handle is known and a waiting slot is
    /// registered under `cmd_id`; every failure leaves all state unchanged.
    pub fn load_respond(&mut self, rid: u32, cmd_id: u32, answer: LoadAnswer) -> (r: Result<
        (),
        OpError,
    >)
        requires
            old(self).wf(),
        ensures
            final(self).wf(),
            match r {
                Ok(()) => {
                    &&& old(self).loaders.contains_handle(rid)
                    &&& old(self).loaders.at(rid).load@.can_respond(cmd_id)
                    &&& old(self).loader_updated(
                        *final(self),
                        rid,
                        old(self).loaders.at(rid).resolve@,
                        old(self).loaders.at(rid).load@.responded(cmd_id, answer),
                    )
                },
                Err(e) => {
                    &&& old(self).state_eq(*final(self))
                    &&& match e {
                        OpError::NotFound => !old(self).loaders.contains_handle(rid),
                        OpError::UnknownCorrelationId => old(self).loaders.contains_handle(rid)
                            && !old(self).loaders.at(rid).load@.can_respond(cmd_id),
                        _ => false,
                    }
                },
            },
    {
        if !self.loaders.contains(rid) {
            return Err(OpError::NotFound);
        }
        proof {
            assert(old(self).loaders.at(rid).wf());
        }
        let mut loader = self.loaders.replace(rid, ModuleLoader::new());
        let out = loader.load.respond(cmd_id, answer);
        let placeholder = self.loaders.replace(rid, loader);
        match out {
            Ok(()) => {
                proof {
                    self.lemma_loaders_wf_update(*old(self), rid);
                }
                Ok(())
            },
            Err(_) => {
                proof {
                    assert(self.loaders@ =~= old(self).loaders@);
                    self.lemma_loaders_wf_from_eq(*old(self));
                }
                Err(OpError::UnknownCorrelationId)
            },
        }
    }

    /// The engine side's poll for the answer to its source-fetch request:
    /// consumes the response written for `cmd_id` on the loader under
    /// `rid`, removing the slot. `Ok(None)` means no answer yet.
    pub fn load_take_response(&mut self, rid: u32, cmd_id: u32) -> (r: Result<
        Option<LoadAnswer>,
        OpError,
    >)
        requires
            old(self).wf(),
        ensures
            final(self).wf(),
            match r {
                Ok(res) => {
                    &&& old(self).loaders.contains_handle(rid)
                    &&& match res {
                        Some(answer) => old(self).loaders.at(rid).load@.take_result(cmd_id)
                            == Some(answer)
                            && old(self).loader_updated(
                                *final(self),
                                rid,
                                old(self).loaders.at(rid).resolve@,
                                old(self).loaders.at(rid).load@.taken(cmd_id),
                            ),
                        None => old(self).loaders.at(rid).load@.take_result(cmd_id) is None && old(
                            self,
                        ).state_eq(*final(self)),
                    }
                },
                Err(e) => e == OpError::NotFound && !old(self).loaders.contains_handle(rid) && old(
                    self,
                ).state_eq(*final(self)),
            },
    {
        if !self.loaders.contains(rid) {
            return Err(OpError::NotFound);
        }
        proof {
            assert(old(self).loaders.at(rid).wf());
        }
        let mut loader = self.loaders.replace(rid, ModuleLoader::new());
        let res = loader.load.take_response(cmd_id);
        let placeholder = self.loaders.replace(rid, loader);
        proof {
            if res is None {
                assert(self.loaders@ =~= old(self).loaders@);
                self.lemma_loaders_wf_from_eq(*old(self));
            } else {
                self.lemma_loaders_wf_update(*old(self), rid);
            }
        }
        Ok(res)
    }

    /// Registers an opaque snapshot blob handed over by the host and
    /// returns its handle. The blob buffer is mandatory; registering
    /// without one is a protocol violation. The bound on the table is a
    /// machine limit of the 32-bit handle space.
    pub fn new_snapshot(&mut self, buffer: Option<Vec<u8>>) -> (r: Result<u32, OpError>)
        requires
            old(self).wf(),
            old(self).snapshots@.len() < u32::MAX as int,
        ensures
            final(self).wf(),
            match r {
                Ok(h) => {
                    &&& buffer matches Some(b) && final(self).snapshots@ == old(
                        self,
                    ).snapshots@.push(b)
                    &&& h as int == old(self).snapshots@.len() + 1
                    &&& !old(self).snapshots.contains_handle(h)
                    &&& final(self).snapshots.contains_handle(h)
                    &&& final(self).call_relays == old(self).call_relays
                    &&& final(self).loaders == old(self).loaders
                    &&& final(self).interpreters == old(self).interpreters
                },
                Err(e) => e == OpError::MissingPayload && buffer is None && old(self).state_eq(
                    *final(self),
                ),
            },
    {
        let data = match buffer {
            Some(b) => b,
            None => {
                return Err(OpError::MissingPayload);
            },
        };
        let h = self.snapshots.allocate(data);
        Ok(h)
    }

    /// Reads back the snapshot blob stored under `rid`; fails with
    /// `NotFound` for any handle that was never issued.
    pub fn snapshot_read(&self, rid: u32) -> (r: Result<&Vec<u8>, OpError>)
        ensures
            match r {
                Ok(b) => self.snapshots.contains_handle(rid) && *b == self.snapshots.at(rid),
                Err(e) => e == OpError::NotFound && !self.snapshots.contains_handle(rid),
            },
    {
        match self.snapshots.get(rid) {
            Ok(b) => Ok(b),
            Err(_) => Err(OpError::NotFound),
        }
    }

    /// Only the interpreter table differs between `self` and `post`, and
    /// there only the entry under `rid`, which now holds `inst`.
    pub open spec fn interpreter_updated(
        self,
        post: System,
        rid: u32,
        inst: InterpreterInstance,
    ) -> bool {
        &&& post.interpreters@.len() == self.interpreters@.len()
        &&& post.interpreters.at(rid) == inst
        &&& forall|h: u32|
            self.interpreters.contains_handle(h) && h != rid ==> #[trigger] post.interpreters.at(h)
                == self.interpreters.at(h)
        &&& post.call_relays == self.call_relays
        &&& post.loaders == self.loaders
        &&& post.snapshots == self.snapshots
    }

    /// Creates an interpreter instance bound to the loader under
    /// `loader_rid`, optionally primed from the snapshot blob under
    /// `snapshot_rid`, and returns its handle. The host constructs the
    /// engine and reports the outcome in `engine`; a malformed blob is
    /// rejected with `InvalidSnapshot`. Succeeds if and only if the given
    /// handles are known and the engine accepted. The bound on the table is
    /// a machine limit of the 32-bit handle space.
    pub fn new_interpreter(
        &mut self,
        loader_rid: u32,
        snapshot_rid: Option<u32>,
        will_snapshot: bool,
        engine: EngineCreation,
    ) -> (r: Result<u32, OpError>)
        requires
            old(self).wf(),
            old(self).interpreters@.len() < u32::MAX as int,
        ensures
            final(self).wf(),
            match r {
                Ok(h) => {
                    &&& old(self).loaders.contains_handle(loader_rid)
                    &&& (snapshot_rid matches Some(srid) ==> old(self).snapshots.contains_handle(
                        srid,
                    ))
                    &&& engine == EngineCreation::Accepted
                    &&& h as int == old(self).interpreters@.len() + 1
                    &&& !old(self).interpreters.contains_handle(h)
                    &&& final(self).interpreters.contains_handle(h)
                    &&& final(self).interpreters@ == old(self).interpreters@.push(
                        (InterpreterInstance {
                            loader_rid,
                            call_sink_rid: None,
                            will_snapshot,
                            started: false,
                            in_flight: 0u32,
                            drained: false,
                            snapshotted: false,
                        }),
                    )
                    &&& final(self).call_relays == old(self).call_relays
                    &&& final(self).loaders == old(self).loaders
                    &&& final(self).snapshots == old(self).snapshots
                },
                Err(e) => {
                    &&& old(self).state_eq(*final(self))
                    &&& match e {
                        OpError::NotFound => !old(self).loaders.contains_handle(loader_rid) || (
                        snapshot_rid matches Some(srid) && !old(self).snapshots.contains_handle(
                            srid,
                        )),
                        OpError::InvalidSnapshot => old(self).loaders.contains_handle(loader_rid)
                            && (snapshot_rid matches Some(srid) ==> old(
                            self,
                        ).snapshots.contains_handle(srid)) && engine
                            == EngineCreation::RejectedSnapshot,
                        _ => false,
                    }
                },
            },
    {
        if !self.loaders.contains(loader_rid) {
            return Err(OpError::NotFound);
        }
        match snapshot_rid {
            Some(srid) => {
                if !self.snapshots.contains(srid) {
                    return Err(OpError::NotFound);
                }
            },
            None => {},
        }
        match engine {
            EngineCreation::RejectedSnapshot => {
                return Err(OpError::InvalidSnapshot);
            },
            EngineCreation::Accepted => {},
        }
        let h = self.interpreters.allocate(InterpreterInstance::new(loader_rid, will_snapshot));
        Ok(h)
    }

    /// Binds the call relay under `dispatcher_rid` as the foreign-call sink
    /// of the interpreter under `interp_rid`. The binding is one-time:
    /// rebinding is refused with `CallSinkAlreadyBound`. Succeeds if and
    /// only if both handles are known and no sink is bound yet.
    pub fn set_call_sink(&mut self, interp_rid: u32, dispatcher_rid: u32) -> (r: Result<
        (),
        OpError,
    >)
        requires
            old(self).wf(),
        ensures
            final(self).wf(),
            match r {
                Ok(()) => {
                    &&& old(self).interpreters.contains_handle(interp_rid)
                    &&& old(self).call_relays.contains_handle(dispatcher_rid)
                    &&& old(self).interpreters.at(interp_rid).call_sink_rid is None
                    &&& old(self).interpreter_updated(
                        *final(self),
                        interp_rid,
                        (InterpreterInstance {
                            call_sink_rid: Some(dispatcher_rid),
                            ..old(self).interpreters.at(interp_rid)
                        }),
                    )
                },
                Err(e) => {
                    &&& old(self).state_eq(*final(self))
                    &&& match e {
                        OpError::NotFound => !old(self).interpreters.contains_handle(interp_rid)
                            || !old(self).call_relays.contains_handle(dispatcher_rid),
                        OpError::CallSinkAlreadyBound => old(self).interpreters.contains_handle(
                            interp_rid,
                        ) && old(self).call_relays.contains_handle(dispatcher_rid) && old(
                            self,
                        ).interpreters.at(interp_rid).call_sink_rid is Some,
                        _ => false,
                    }
                },
            },
    {
        let inst = match self.interpreters.get(interp_rid) {
            Ok(i) => *i,
            Err(_) => {
                return Err(OpError::NotFound);
            },
        };
        if !self.call_relays.contains(dispatcher_rid) {
            return Err(OpError::NotFound);
        }
        if inst.call_sink_rid.is_some() {
            return Err(OpError::CallSinkAlreadyBound);
        }
        let updated = InterpreterInstance { call_sink_rid: Some(dispatcher_rid), ..inst };
        let prev = self.interpreters.replace(interp_rid, updated);
        Ok(())
    }

    /// Marks the start of one execution (a top-level script or a module
    /// graph evaluation) on the interpreter under `interp_rid`. A
    /// snapshotted instance mutates no further and refuses. The bound on
    /// concurrently in-flight executions is a machine limit of the 32-bit
    /// counter.
    pub fn begin_execute(&mut self, interp_rid: u32) -> (r: Result<(), OpError>)
        requires
            old(self).wf(),
            old(self).interpreters.contains_handle(interp_rid) ==> old(self).interpreters.at(
                interp_rid,
            ).in_flight < u32::MAX,
        ensures
            final(self).wf(),
            match r {
                Ok(()) => {
                    &&& old(self).interpreters.contains_handle(interp_rid)
                    &&& !old(self).interpreters.at(interp_rid).snapshotted
                    &&& old(self).interpreter_updated(
                        *final(self),
                        interp_rid,
                        (InterpreterInstance {
                            started: true,
                            in_flight: (old(self).interpreters.at(interp_rid).in_flight
                                + 1) as u32,
                            drained: false,
                            ..old(self).interpreters.at(interp_rid)
                        }),
                    )
                },
                Err(e) => {
                    &&& old(self).state_eq(*final(self))
                    &&& match e {
                        OpError::NotFound => !old(self).interpreters.contains_handle(interp_rid),
                        OpError::AlreadySnapshotted => old(self).interpreters.contains_handle(
                            interp_rid,
                        ) && old(self).interpreters.at(interp_rid).snapshotted,
                        _ => false,
                    }
                },
            },
    {
        let inst = match self.interpreters.get(interp_rid) {
            Ok(i) => *i,
            Err(_) => {
                return Err(OpError::NotFound);
            },
        };
        if inst.snapshotted {
            return Err(OpError::AlreadySnapshotted);
        }
        let updated = InterpreterInstance {
            started: true,
            in_flight: inst.in_flight + 1,
            drained: false,
            ..inst
        };
        let prev = self.interpreters.replace(interp_rid, updated);
        Ok(())
    }

    /// Marks the completion of one execution on the interpreter under
    /// `interp_rid` (however the engine's run ended; its outcome travels
    /// back to the original caller in the response envelope). Fails with
    /// `NotRunning` when no execution is in flight.
    pub fn finish_execute(&mut self, interp_rid: u32) -> (r: Result<(), OpError>)
        requires
            old(self).wf(),
        ensures
            final(self).wf(),
            match r {
                Ok(()) => {
                    &&& old(self).interpreters.contains_handle(interp_rid)
                    &&& old(self).interpreters.at(interp_rid).in_flight > 0
                    &&& old(self).interpreter_updated(
                        *final(self),
                        interp_rid,
                        (InterpreterInstance {
                            in_flight: (old(self).interpreters.at(interp_rid).in_flight
                                - 1) as u32,
                            ..old(self).interpreters.at(interp_rid)
                        }),
                    )
                },
                Err(e) => {
                    &&& old(self).state_eq(*final(self))
                    &&& match e {
                        OpError::NotFound => !old(self).interpreters.contains_handle(interp_rid),
                        OpError::NotRunning => old(self).interpreters.contains_handle(interp_rid)
                            && old(self).interpreters.at(interp_rid).in_flight == 0,
                        _ => false,
                    }
                },
            },
    {
        let inst = match self.interpreters.get(interp_rid) {
            Ok(i) => *i,
            Err(_) => {
                return Err(OpError::NotFound);
            },
        };
        if inst.in_flight == 0 {
            return Err(OpError::NotRunning);
        }
        let updated = InterpreterInstance { in_flight: inst.in_flight - 1, ..inst };
        let prev = self.interpreters.replace(interp_rid, updated);
        Ok(())
    }

    /// Records what the engine reported when the event loop of the
    /// interpreter under `interp_rid` was polled. A `Complete` report marks
    /// the instance idle and resolves the consumer's completion poll; a
    /// `Pending` report changes nothing; an engine failure is surfaced as
    /// `EngineFailure` with the engine's message, changing nothing.
    pub fn record_poll(&mut self, interp_rid: u32, report: EnginePoll) -> (r: Result<
        PollStatus,
        OpError,
    >)
        requires
            old(self).wf(),
        ensures
            final(self).wf(),
            match r {
                Ok(status) => {
                    &&& old(self).interpreters.contains_handle(interp_rid)
                    &&& match status {
                        PollStatus::Complete => report is Complete && old(
                            self,
                        ).interpreter_updated(
                            *final(self),
                            interp_rid,
                            (InterpreterInstance {
                                drained: true,
                                ..old(self).interpreters.at(interp_rid)
                            }),
                        ),
                        PollStatus::Pending => report is Pending && old(self).state_eq(
                            *final(self),
                        ),
                    }
                },
                Err(e) => {
                    &&& old(self).state_eq(*final(self))
                    &&& match e {
                        OpError::NotFound => !old(self).interpreters.contains_handle(interp_rid),
                        OpError::EngineFailure(message) => old(self).interpreters.contains_handle(
                            interp_rid,
                        ) && report == EnginePoll::Failed(message),
                        _ => false,
                    }
                },
            },
    {
        let inst = match self.interpreters.get(interp_rid) {
            Ok(i) => *i,
            Err(_) => {
                return Err(OpError::NotFound);
            },
        };
        match report {
            EnginePoll::Complete => {
                let updated = InterpreterInstance { drained: true, ..inst };
                let prev = self.interpreters.replace(interp_rid, updated);
                Ok(PollStatus::Complete)
            },
            EnginePoll::Pending => Ok(PollStatus::Pending),
            EnginePoll::Failed(message) => Err(OpError::EngineFailure(message)),
        }
    }

    /// Stores the snapshot blob the engine captured for the interpreter
    /// under `interp_rid`, marks the instance snapshotted, and returns the
    /// blob's handle. Refused when the instance was not created with
    /// snapshotting enabled, or while an execution is in flight. The bound
    /// on the blob table is a machine limit of the 32-bit handle space.
    pub fn store_snapshot(&mut self, interp_rid: u32, blob: Vec<u8>) -> (r: Result<u32, OpError>)
        requires
            old(self).wf(),
            old(self).snapshots@.len() < u32::MAX as int,
        ensures
            final(self).wf(),
            match r {
                Ok(h) => {
                    &&& old(self).interpreters.contains_handle(interp_rid)
                    &&& old(self).interpreters.at(interp_rid).will_snapshot
                    &&& old(self).interpreters.at(interp_rid).in_flight == 0
                    &&& h as int == old(self).snapshots@.len() + 1
                    &&& final(self).snapshots@ == old(self).snapshots@.push(blob)
                    &&& final(self).interpreters@.len() == old(self).interpreters@.len()
                    &&& final(self).interpreters.at(interp_rid) == (InterpreterInstance {
                        snapshotted: true,
                        ..old(self).interpreters.at(interp_rid)
                    })
                    &&& forall|g: u32|
                        old(self).interpreters.contains_handle(g) && g != interp_rid
                            ==> #[trigger] final(self).interpreters.at(g) == old(
                            self,
                        ).interpreters.at(g)
                    &&& final(self).call_relays == old(self).call_relays
                    &&& final(self).loaders == old(self).loaders
                },
                Err(e) => {
                    &&& old(self).state_eq(*final(self))
                    &&& match e {
                        OpError::NotFound => !old(self).interpreters.contains_handle(interp_rid),
                        OpError::SnapshotDisabled => old(self).interpreters.contains_handle(
                            interp_rid,
                        ) && !old(self).interpreters.at(interp_rid).will_snapshot,
                        OpError::Busy => old(self).interpreters.contains_handle(interp_rid) && old(
                            self,
                        ).interpreters.at(interp_rid).will_snapshot && old(self).interpreters.at(
                            interp_rid,
                        ).in_flight > 0,
                        _ => false,
                    }
                },
            },
    {
        let inst = match self.interpreters.get(interp_rid) {
            Ok(i) => *i,
            Err(_) => {
                return Err(OpError::NotFound);
            },
        };
        if !inst.will_snapshot {
            return Err(OpError::SnapshotDisabled);
        }
        if inst.in_flight > 0 {
            return Err(OpError::Busy);
        }
        let h = self.snapshots.allocate(blob);
        let updated = InterpreterInstance { snapshotted: true, ..inst };
        let prev = self.interpreters.replace(interp_rid, updated);
        Ok(h)
    }

    /// The loader table of `self` and `post` holds the same objects: the
    /// stored-loader well-formedness of `self` carries over to `post`.
    proof fn lemma_loaders_wf_from_eq(self, pre: System)
        requires
            pre.wf(),
            self.loaders@ == pre.loaders@,
            self.call_relays@ == pre.call_relays@,
        ensures
            self.wf(),
    {
        assert forall|h2: u32| self.loaders.contains_handle(h2) implies (
        #[trigger] self.loaders.at(h2)).wf() by {
            assert(self.loaders.at(h2) == pre.loaders.at(h2));
        }
        assert forall|h2: u32| self.call_relays.contains_handle(h2) implies (
        #[trigger] self.call_relays.at(h2))@.wf() by {
            assert(self.call_relays.at(h2) == pre.call_relays.at(h2));
        }
    }

    /// The loader table of `self` differs from `pre` only under `rid`, and
    /// the loader stored there is well-formed: well-formedness carries
    /// over.
    proof fn lemma_loaders_wf_update(self, pre: System, rid: u32)
        requires
            pre.wf(),
            self.loaders@.len() == pre.loaders@.len(),
            self.loaders.contains_handle(rid) ==> self.loaders.at(rid).wf(),
            forall|h: u32|
                pre.loaders.contains_handle(h) && h != rid ==> #[trigger] self.loaders.at(h)
                    == pre.loaders.at(h),
            self.call_relays@ == pre.call_relays@,
        ensures
            self.wf(),
    {
        assert forall|h2: u32| self.loaders.contains_handle(h2) implies (
        #[trigger] self.loaders.at(h2)).wf() by {
            if h2 != rid {
                assert(self.loaders.at(h2) == pre.loaders.at(h2));
            }
        }
        assert forall|h2: u32| self.call_relays.contains_handle(h2) implies (
        #[trigger] self.call_relays.at(h2))@.wf() by {
            assert(self.call_relays.at(h2) == pre.call_relays.at(h2));
        }
    }
}

} // verus!
