//! The state that all connections share: who may call, which calls are active, and whether the
//! server is shutting down.

use crate::auth::{presents, TOKEN_TEXT_LEN};
use crate::headers::header_contents;
use crate::reply::{
    error_message, json_response, message_reply, rpc_error, Reply, ReplyBodyView, ReplyView,
    RpcMessage, OK, OVERLOADED,
};
use crate::request::{
    challenge, check_head, has_own_origin, head_of, head_rejection, names_host, reply_in, HeadView,
    RequestHead,
};
use axum::http::HeaderMap;
use serde_json::Value;
use std::collections::BTreeMap;
use tokio::sync::Semaphore;
use vstd::prelude::*;
use vstd::std_specs::btree::spec_keys_iter;
use vstd::std_specs::iter::IteratorSpec;

verus! {

/// How many tool calls can be active at once.
pub const MAX_IN_FLIGHT: usize = 32;

/// `tokio::sync::Semaphore`; opaque to the verifier.
#[verifier::external_type_specification]
#[verifier::external_body]
pub struct ExSemaphore(tokio::sync::Semaphore);

/// How many permits a semaphore has to give.
pub uninterp spec fn semaphore_permits(semaphore: Semaphore) -> nat;

/// The semaphore has not been closed, and no task waits for its permits.
pub uninterp spec fn semaphore_is_calm(semaphore: Semaphore) -> bool;

/// Calls `Semaphore::new`.
///
/// Trusted: the semaphore is open, has the permits asked for, and nobody waits for it. More than
/// `Semaphore::MAX_PERMITS` permits, an eighth of the range of `usize`, would panic.
#[verifier::external_body]
fn new_semaphore(permits: usize) -> (semaphore: Semaphore)
    requires
        permits <= usize::MAX / 8,
    ensures
        semaphore_permits(semaphore) == permits,
        semaphore_is_calm(semaphore),
{
    Semaphore::new(permits)
}

/// Calls `Semaphore::available_permits`.
///
/// Trusted: it returns the number of permits that the semaphore has to give.
#[verifier::external_body]
fn count_permits(semaphore: &Semaphore) -> (permits: usize)
    ensures
        permits == semaphore_permits(*semaphore),
{
    semaphore.available_permits()
}

/// Calls `Semaphore::try_acquire` and, where that gave a permit, `SemaphorePermit::forget`, so
/// that the permit stays taken until it is given back.
///
/// Trusted: of a semaphore that is open and that no one else uses meanwhile, a permit is taken
/// exactly where one is left, and nothing waits.
#[verifier::external_body]
fn take_permit(semaphore: &mut Semaphore) -> (taken: bool)
    requires
        semaphore_is_calm(*old(semaphore)),
    ensures
        taken == (semaphore_permits(*old(semaphore)) > 0),
        semaphore_permits(*final(semaphore)) == semaphore_permits(*old(semaphore)) - (if taken {
            1int
        } else {
            0int
        }),
        semaphore_is_calm(*final(semaphore)),
{
    match semaphore.try_acquire() {
        Ok(permit) => {
            permit.forget();
            true
        },
        Err(_) => false,
    }
}

/// Calls `Semaphore::add_permits` with one permit.
///
/// Trusted: where nobody waits, the semaphore has one permit more to give. It would panic above
/// `Semaphore::MAX_PERMITS`.
#[verifier::external_body]
fn give_permit_back(semaphore: &mut Semaphore)
    requires
        semaphore_is_calm(*old(semaphore)),
        semaphore_permits(*old(semaphore)) < usize::MAX / 8,
    ensures
        semaphore_permits(*final(semaphore)) == semaphore_permits(*old(semaphore)) + 1,
        semaphore_is_calm(*final(semaphore)),
{
    semaphore.add_permits(1);
}

/// What is known of an active call.
#[derive(Clone, Copy, Debug, PartialEq, Eq, Structural)]
pub struct CallLifecycle {
    /// The call has been told to stop.
    pub cancelled: bool,
}

/// The state of the server.
pub struct HttpState {
    port: u16,
    token: [u8; TOKEN_TEXT_LEN],
    capacity: Semaphore,
    active: BTreeMap<u64, CallLifecycle>,
    next_call_id: u64,
    shutting_down: bool,
}

pub struct HttpStateView {
    pub port: u16,
    pub token: Seq<u8>,
    /// How many more calls can be admitted.
    pub permits: nat,
    /// The calls that are active, by their ids.
    pub active: Map<u64, CallLifecycle>,
    pub next_call_id: u64,
    pub shutting_down: bool,
}

impl View for HttpState {
    type V = HttpStateView;

    closed spec fn view(&self) -> HttpStateView {
        HttpStateView {
            port: self.port,
            token: self.token@,
            permits: semaphore_permits(self.capacity),
            active: self.active@,
            next_call_id: self.next_call_id,
            shutting_down: self.shutting_down,
        }
    }
}

/// A call that was admitted.
pub struct AdmittedCall {
    pub call_id: u64,
    /// The server is shutting down: the call must be told to stop at once.
    pub cancelled: bool,
}

/// The answer to a call that was not admitted.
pub struct CapacityRejection {
    pub message: RpcMessage,
}

/// The state of a server that has just started.
pub open spec fn initial_state(port: u16, token: Seq<u8>) -> HttpStateView {
    HttpStateView {
        port,
        token,
        permits: MAX_IN_FLIGHT as nat,
        active: Map::empty(),
        next_call_id: 1,
        shutting_down: false,
    }
}

/// The id after `id`: after the last one they begin again.
pub open spec fn id_after(id: u64) -> u64 {
    if id == u64::MAX {
        0
    } else {
        (id + 1) as u64
    }
}

/// Some permit is held by no active call: it was taken for a call that is still to be registered,
/// or that is no longer active.
pub open spec fn has_loose_permit(state: HttpStateView) -> bool {
    state.permits + state.active.len() < MAX_IN_FLIGHT
}

/// The state after a permit was taken; nothing else has changed.
pub open spec fn after_acquisition(state: HttpStateView) -> HttpStateView {
    HttpStateView { permits: (state.permits - 1) as nat, ..state }
}

/// The state after a call that holds a permit was registered: it is active, and where the server
/// is shutting down it is cancelled from the start.
pub open spec fn after_registration(state: HttpStateView) -> HttpStateView {
    HttpStateView {
        active: state.active.insert(
            state.next_call_id,
            CallLifecycle { cancelled: state.shutting_down },
        ),
        next_call_id: id_after(state.next_call_id),
        ..state
    }
}

/// The state after a call was admitted: it holds a permit and is active.
pub open spec fn after_admission(state: HttpStateView) -> HttpStateView {
    after_registration(after_acquisition(state))
}

/// The state after a permit that no active call holds was given back: it is free again. Where
/// there is no such permit, nothing changes.
pub open spec fn after_release(state: HttpStateView) -> HttpStateView {
    HttpStateView {
        permits: if has_loose_permit(state) {
            state.permits + 1
        } else {
            state.permits
        },
        ..state
    }
}

/// The state after a call completed: it is no longer active and its permit is free again.
pub open spec fn after_completion(state: HttpStateView, call_id: u64) -> HttpStateView {
    after_release(HttpStateView { active: state.active.remove(call_id), ..state })
}

/// The state after the client of a call went away: the call is cancelled, if it is still active.
pub open spec fn after_disconnect(state: HttpStateView, call_id: u64) -> HttpStateView {
    HttpStateView {
        active: if state.active.contains_key(call_id) {
            state.active.insert(call_id, CallLifecycle { cancelled: true })
        } else {
            state.active
        },
        ..state
    }
}

/// The calls, all of them cancelled.
pub open spec fn all_cancelled(active: Map<u64, CallLifecycle>) -> Map<u64, CallLifecycle> {
    active.map_values(|call: CallLifecycle| CallLifecycle { cancelled: true })
}

/// The state after the shutdown began: every active call is cancelled.
pub open spec fn after_shutdown(state: HttpStateView) -> HttpStateView {
    HttpStateView { active: all_cancelled(state.active), shutting_down: true, ..state }
}

/// What holds of the state at all times: the active calls hold a permit each, there are no more
/// than the limit, and during the shutdown every active call is cancelled.
pub open spec fn is_sound(state: HttpStateView) -> bool {
    &&& state.active.dom().finite()
    &&& state.permits + state.active.len() <= MAX_IN_FLIGHT
    &&& state.shutting_down ==> forall|id: u64| #[trigger]
        state.active.contains_key(id) ==> state.active[id].cancelled
}

impl HttpState {
    /// The state is sound, and nothing but its own methods uses its semaphore.
    pub closed spec fn wf(self) -> bool {
        &&& is_sound(self@)
        &&& semaphore_is_calm(self.capacity)
    }

    /// At most `MAX_IN_FLIGHT` calls are active in any state that the methods leave behind, and
    /// once the shutdown has begun all of them are cancelled.
    pub proof fn law_wf_is_sound(self)
        requires
            self.wf(),
        ensures
            is_sound(self@),
            self@.active.len() <= MAX_IN_FLIGHT,
    {
    }

    /// The state of a server that has just started.
    pub fn new(port: u16, token: [u8; TOKEN_TEXT_LEN]) -> (state: HttpState)
        ensures
            state.wf(),
            state@ == initial_state(port, token@),
    {
        HttpState {
            port,
            token,
            capacity: new_semaphore(MAX_IN_FLIGHT),
            active: BTreeMap::new(),
            next_call_id: 1,
            shutting_down: false,
        }
    }

    /// How a request with the given method and header fields is rejected, if it is.
    pub fn check_request(&self, method: &[u8], headers: &HeaderMap) -> (rejection: Option<Reply>)
        ensures
            reply_in(rejection) == head_rejection(
                self@.port,
                self@.token,
                self@.shutting_down,
                head_of(method@, header_contents(*headers)),
            ),
    {
        let head = RequestHead::read(method, headers);
        check_head(self.port, &self.token, self.shutting_down, &head)
    }

    /// How many more calls can be admitted.
    pub fn available_permits(&self) -> (permits: usize)
        ensures
            permits == self@.permits,
    {
        count_permits(&self.capacity)
    }

    /// Takes a permit for a call, or turns the call away at once where none is left; nobody is made
    /// to wait. Nothing but the number of free permits changes, and a call that is turned away
    /// changes nothing at all.
    pub fn try_acquire_capacity(&mut self, request_id: &Value) -> (admission: Result<
        (),
        CapacityRejection,
    >)
        requires
            old(self).wf(),
        ensures
            final(self).wf(),
            match admission {
                Ok(()) => {
                    &&& old(self)@.permits > 0
                    &&& final(self)@ == after_acquisition(old(self)@)
                },
                Err(rejection) => {
                    &&& old(self)@.permits == 0
                    &&& rejection.message@ == error_message(
                        Some(*request_id),
                        OVERLOADED,
                        "too many MCP tool calls are active"@,
                    )
                    &&& final(self)@ == old(self)@
                },
            },
    {
        if !take_permit(&mut self.capacity) {
            return Err(
                CapacityRejection {
                    message: rpc_error(
                        Some(request_id.clone()),
                        OVERLOADED,
                        "too many MCP tool calls are active",
                    ),
                },
            );
        }
        Ok(())
    }

    /// Puts a call that holds a permit on the list, under an id of its own.
    pub fn register_call(&mut self) -> (call: AdmittedCall)
        requires
            old(self).wf(),
            has_loose_permit(old(self)@),
        ensures
            final(self).wf(),
            call.call_id == old(self)@.next_call_id,
            call.cancelled == old(self)@.shutting_down,
            final(self)@ == after_registration(old(self)@),
    {
        let call_id: u64 = self.next_call_id;
        self.next_call_id = call_id.wrapping_add(1);
        let cancelled = self.shutting_down;
        self.active.insert(call_id, CallLifecycle { cancelled });
        AdmittedCall { call_id, cancelled }
    }

    /// Admits a call, which takes a permit and is put on the list, or turns it away at once where
    /// the limit is reached.
    pub fn admit_call(&mut self, request_id: &Value) -> (admission: Result<
        AdmittedCall,
        CapacityRejection,
    >)
        requires
            old(self).wf(),
        ensures
            final(self).wf(),
            match admission {
                Ok(call) => {
                    &&& old(self)@.permits > 0
                    &&& call.call_id == old(self)@.next_call_id
                    &&& call.cancelled == old(self)@.shutting_down
                    &&& final(self)@ == after_admission(old(self)@)
                },
                Err(rejection) => {
                    &&& old(self)@.permits == 0
                    &&& rejection.message@ == error_message(
                        Some(*request_id),
                        OVERLOADED,
                        "too many MCP tool calls are active"@,
                    )
                    &&& final(self)@ == old(self)@
                },
            },
    {
        match self.try_acquire_capacity(request_id) {
            Ok(()) => Ok(self.register_call()),
            Err(rejection) => Err(rejection),
        }
    }

    /// Gives back a permit that no active call holds; does nothing where there is none.
    pub fn release_capacity(&mut self)
        requires
            old(self).wf(),
        ensures
            final(self).wf(),
            final(self)@ == after_release(old(self)@),
    {
        if count_permits(&self.capacity) + self.active.len() < MAX_IN_FLIGHT {
            give_permit_back(&mut self.capacity);
        }
    }

    /// Takes a call off the list once its tool has ended, and frees its permit.
    pub fn complete_call(&mut self, call_id: u64)
        requires
            old(self).wf(),
        ensures
            final(self).wf(),
            final(self)@ == after_completion(old(self)@, call_id),
    {
        self.active.remove(&call_id);
        self.release_capacity();
    }

    /// Cancels a call whose client went away; says whether the call was still active, and so must
    /// be told to stop.
    pub fn disconnect_call(&mut self, call_id: u64) -> (cancel: bool)
        requires
            old(self).wf(),
        ensures
            final(self).wf(),
            cancel == old(self)@.active.contains_key(call_id),
            final(self)@ == after_disconnect(old(self)@, call_id),
    {
        let cancel = self.active.contains_key(&call_id);
        if cancel {
            self.active.insert(call_id, CallLifecycle { cancelled: true });
        }
        cancel
    }

    fn active_ids(&self) -> (ids: Vec<u64>)
        ensures
            ids@.no_duplicates(),
            ids@.to_set() == self.active@.dom(),
    {
        let mut ids: Vec<u64> = Vec::new();
        for id in it: self.active.keys()
            invariant
                ids@.len() == it.index(),
                it.seq() == spec_keys_iter(&self.active).remaining(),
                forall|i: int| 0 <= i < ids@.len() ==> ids@[i] == *it.seq()[i],
        {
            ids.push(*id);
        }
        assert(ids@ =~= spec_keys_iter(&self.active).remaining().unref());
        ids
    }

    /// Begins the shutdown: every active call is cancelled, and is returned to be told to stop.
    pub fn begin_shutdown(&mut self) -> (cancelled: Vec<u64>)
        requires
            old(self).wf(),
        ensures
            final(self).wf(),
            final(self)@ == after_shutdown(old(self)@),
            cancelled@.no_duplicates(),
            cancelled@.to_set() == old(self)@.active.dom(),
    {
        let ids = self.active_ids();
        let ghost before = self.active@;
        for i in 0..ids.len()
            invariant
                ids@.to_set() == before.dom(),
                self.active@.dom() == before.dom(),
                forall|j: int|
                    0 <= j < i ==> self.active@[#[trigger] ids@[j]].cancelled,
                self.port == old(self).port,
                self.token == old(self).token,
                self.capacity == old(self).capacity,
                self.next_call_id == old(self).next_call_id,
                self.shutting_down == old(self).shutting_down,
        {
            assert(ids@.to_set().contains(ids@[i as int]));
            self.active.insert(ids[i], CallLifecycle { cancelled: true });
            assert(self.active@.dom() =~= before.dom());
        }
        self.shutting_down = true;
        assert(self.active@ =~= all_cancelled(before)) by {
            assert forall|id: u64| before.contains_key(id) implies self.active@[id].cancelled by {
                assert(ids@.to_set().contains(id));
                let j = choose|j: int| 0 <= j < ids@.len() && ids@[j] == id;
                assert(self.active@[ids@[j]].cancelled);
            }
        }
        ids
    }

    /// Whether a call is still active.
    pub fn is_active(&self, call_id: u64) -> (active: bool)
        ensures
            active == self@.active.contains_key(call_id),
    {
        self.active.contains_key(&call_id)
    }

    /// Whether no call is active: a server that is shutting down waits for this.
    pub fn is_idle(&self) -> (idle: bool)
        ensures
            idle == (self@.active == Map::<u64, CallLifecycle>::empty()),
    {
        let idle = self.active.is_empty();
        proof {
            if idle {
                assert(self.active@ =~= Map::<u64, CallLifecycle>::empty());
            }
        }
        idle
    }

    pub fn is_shutting_down(&self) -> (shutting_down: bool)
        ensures
            shutting_down == self@.shutting_down,
    {
        self.shutting_down
    }
}

impl CapacityRejection {
    /// The response to a call that was not admitted: a JSON-RPC error that came through all right.
    pub fn into_response(self) -> (reply: Reply)
        ensures
            reply@ == message_reply(OK, self.message@),
    {
        json_response(OK, self.message)
    }
}

/// What can happen to the state.
pub enum Operation {
    /// A call asks for a permit.
    Acquire,
    /// A call that holds a permit is put on the list.
    Register,
    /// A call asks to be admitted: for a permit and, where it gets one, a place on the list.
    Admit,
    /// A permit that no active call holds is given back.
    Release,
    Complete(u64),
    Disconnect(u64),
    Shutdown,
}

/// The state after an operation.
pub open spec fn apply(state: HttpStateView, operation: Operation) -> HttpStateView {
    match operation {
        Operation::Acquire => if state.permits > 0 {
            after_acquisition(state)
        } else {
            state
        },
        Operation::Register => if has_loose_permit(state) {
            after_registration(state)
        } else {
            state
        },
        Operation::Admit => if state.permits > 0 {
            after_admission(state)
        } else {
            state
        },
        Operation::Release => after_release(state),
        Operation::Complete(call_id) => after_completion(state, call_id),
        Operation::Disconnect(call_id) => after_disconnect(state, call_id),
        Operation::Shutdown => after_shutdown(state),
    }
}

/// The state after a history of operations.
pub open spec fn run(state: HttpStateView, history: Seq<Operation>) -> HttpStateView
    decreases history.len(),
{
    if history.len() == 0 {
        state
    } else {
        apply(run(state, history.drop_last()), history.last())
    }
}

/// A history of `count` admissions.
pub open spec fn admissions(count: nat) -> Seq<Operation> {
    Seq::new(count, |i: int| Operation::Admit)
}

/// A history in which the given calls complete.
pub open spec fn completions(calls: Seq<u64>) -> Seq<Operation> {
    calls.map_values(|id: u64| Operation::Complete(id))
}

proof fn lemma_apply_keeps_sound(state: HttpStateView, operation: Operation)
    requires
        is_sound(state),
    ensures
        is_sound(apply(state, operation)),
        apply(state, operation).port == state.port,
        apply(state, operation).token == state.token,
        state.shutting_down ==> apply(state, operation).shutting_down,
{
    match operation {
        Operation::Shutdown => {
            assert(all_cancelled(state.active).dom() =~= state.active.dom());
        },
        _ => {},
    }
}

/// Whatever happens, the state stays sound, with at most `MAX_IN_FLIGHT` active calls, and keeps
/// the port and the token that it began with.
pub proof fn law_every_history_is_sound(state: HttpStateView, history: Seq<Operation>)
    requires
        is_sound(state),
    ensures
        is_sound(run(state, history)),
        run(state, history).active.len() <= MAX_IN_FLIGHT,
        run(state, history).port == state.port,
        run(state, history).token == state.token,
        state.shutting_down ==> run(state, history).shutting_down,
    decreases history.len(),
{
    if history.len() > 0 {
        law_every_history_is_sound(state, history.drop_last());
        lemma_apply_keeps_sound(run(state, history.drop_last()), history.last());
    }
}

/// Once the shutdown has begun it stays so, and every call that is active, whenever it was
/// admitted, is cancelled.
pub proof fn law_shutdown_cancels_for_good(state: HttpStateView, history: Seq<Operation>)
    requires
        is_sound(state),
    ensures
        run(after_shutdown(state), history).shutting_down,
        forall|id: u64| #[trigger]
            run(after_shutdown(state), history).active.contains_key(id) ==> run(
                after_shutdown(state),
                history,
            ).active[id].cancelled,
{
    lemma_apply_keeps_sound(state, Operation::Shutdown);
    law_every_history_is_sound(after_shutdown(state), history);
}

/// Whatever happens, requests are judged by the port and the token that the server began with: what
/// becomes of the token file, or of anything else, later on makes no difference.
pub proof fn law_first_token_decides(
    port: u16,
    token: Seq<u8>,
    history: Seq<Operation>,
    head: HeadView,
)
    ensures
        ({
            let state = run(initial_state(port, token), history);
            head_rejection(state.port, state.token, state.shutting_down, head) == head_rejection(
                port,
                token,
                state.shutting_down,
                head,
            )
        }),
{
    law_every_history_is_sound(initial_state(port, token), history);
}

/// A request with another token than the one that the server began with is challenged, whatever
/// happened before it.
pub proof fn law_other_token_is_challenged(
    port: u16,
    token: Seq<u8>,
    other: Seq<u8>,
    history: Seq<Operation>,
    head: HeadView,
)
    requires
        other != token,
        names_host(port, head),
        has_own_origin(port, head),
        presents(head.authorization, other),
    ensures
        ({
            let state = run(initial_state(port, token), history);
            head_rejection(state.port, state.token, state.shutting_down, head) == Some(challenge())
        }),
{
    law_first_token_decides(port, token, history, head);
}

/// To begin the shutdown once more changes nothing.
pub proof fn law_shutdown_twice(state: HttpStateView)
    ensures
        after_shutdown(after_shutdown(state)) == after_shutdown(state),
{
    assert(all_cancelled(all_cancelled(state.active)) =~= all_cancelled(state.active));
}

/// How many permits are held after a history: those that were taken and not given back.
pub open spec fn held(state: HttpStateView, history: Seq<Operation>) -> int
    decreases history.len(),
{
    if history.len() == 0 {
        0
    } else {
        let before = run(state, history.drop_last());
        let earlier = held(state, history.drop_last());
        match history.last() {
            Operation::Acquire | Operation::Admit => if before.permits > 0 {
                earlier + 1
            } else {
                earlier
            },
            Operation::Release => if has_loose_permit(before) {
                earlier - 1
            } else {
                earlier
            },
            Operation::Complete(call_id) => if has_loose_permit(
                HttpStateView { active: before.active.remove(call_id), ..before },
            ) {
                earlier - 1
            } else {
                earlier
            },
            Operation::Register | Operation::Disconnect(_) | Operation::Shutdown => earlier,
        }
    }
}

/// The permits that are held and those that are free make up the limit at all times, and no more
/// calls are active than permits are held.
pub proof fn law_held_and_free_permits_make_the_limit(
    port: u16,
    token: Seq<u8>,
    history: Seq<Operation>,
)
    ensures
        ({
            let state = run(initial_state(port, token), history);
            &&& held(initial_state(port, token), history) + state.permits == MAX_IN_FLIGHT
            &&& state.active.len() <= held(initial_state(port, token), history)
        }),
    decreases history.len(),
{
    law_every_history_is_sound(initial_state(port, token), history);
    if history.len() > 0 {
        law_held_and_free_permits_make_the_limit(port, token, history.drop_last());
    }
}

/// Every call of the history takes its permit and its place on the list in one step, and gives
/// both back in one.
pub open spec fn in_whole_calls(history: Seq<Operation>) -> bool {
    forall|i: int|
        0 <= i < history.len() ==> !(#[trigger] history[i] is Acquire || history[i] is Register
            || history[i] is Release)
}

/// Until the ids run out, and where calls are admitted whole, every active call holds exactly one
/// permit, every other permit is free, and no id is given to a second call.
pub proof fn law_permits_and_calls_balance(port: u16, token: Seq<u8>, history: Seq<Operation>)
    requires
        history.len() < u64::MAX,
        in_whole_calls(history),
    ensures
        ({
            let state = run(initial_state(port, token), history);
            &&& state.permits + state.active.len() == MAX_IN_FLIGHT
            &&& 1 <= state.next_call_id <= history.len() + 1
            &&& forall|id: u64| #[trigger]
                state.active.contains_key(id) ==> 1 <= id < state.next_call_id
        }),
    decreases history.len(),
{
    if history.len() > 0 {
        assert(in_whole_calls(history.drop_last())) by {
            assert forall|i: int| 0 <= i < history.len() - 1 implies !(
            #[trigger] history.drop_last()[i] is Acquire || history.drop_last()[i] is Register
                || history.drop_last()[i] is Release) by {
                assert(history.drop_last()[i] == history[i]);
            }
        }
        law_permits_and_calls_balance(port, token, history.drop_last());
        law_every_history_is_sound(initial_state(port, token), history.drop_last());
        let state = run(initial_state(port, token), history.drop_last());
        match history.last() {
            Operation::Shutdown => {
                assert(all_cancelled(state.active).dom() =~= state.active.dom());
            },
            Operation::Disconnect(call_id) => {
                assert(after_disconnect(state, call_id).active.dom() =~= state.active.dom());
            },
            Operation::Complete(call_id) => {
                if !state.active.contains_key(call_id) {
                    assert(state.active.remove(call_id) =~= state.active);
                }
            },
            Operation::Admit => {
                assert(!state.active.contains_key(state.next_call_id));
            },
            Operation::Acquire | Operation::Register | Operation::Release => {
                assert(in_whole_calls(history));
                assert(history[history.len() - 1] == history.last());
            },
        }
    }
}

/// A server that has just started admits exactly `MAX_IN_FLIGHT` calls: after `count` of them that
/// many are active, and the next one is turned away without a trace.
pub proof fn law_admits_exactly_the_limit(port: u16, token: Seq<u8>, count: nat)
    requires
        count <= MAX_IN_FLIGHT,
    ensures
        ({
            let state = run(initial_state(port, token), admissions(count));
            &&& state.active.len() == count
            &&& state.permits == MAX_IN_FLIGHT - count
            &&& count == MAX_IN_FLIGHT ==> apply(state, Operation::Admit) == state
        }),
    decreases count,
{
    let history = admissions(count);
    law_permits_and_calls_balance(port, token, history);
    if count > 0 {
        let fewer = (count - 1) as nat;
        law_admits_exactly_the_limit(port, token, fewer);
        assert(history.drop_last() =~= admissions(fewer));
    }
}

/// At the limit, one completed call makes room for exactly one other, and the calls that go on are
/// not touched.
pub proof fn law_completion_admits_one(state: HttpStateView, call_id: u64)
    requires
        is_sound(state),
        state.active.len() == MAX_IN_FLIGHT,
        state.active.contains_key(call_id),
        !state.active.contains_key(state.next_call_id),
    ensures
        ({
            let freed = after_completion(state, call_id);
            let replaced = apply(freed, Operation::Admit);
            &&& freed.permits == 1
            &&& replaced.permits == 0
            &&& replaced.active.len() == MAX_IN_FLIGHT
            &&& apply(replaced, Operation::Admit) == replaced
            &&& forall|id: u64|
                id != call_id && #[trigger] state.active.contains_key(id)
                    ==> replaced.active.contains_key(id) && replaced.active[id]
                    == state.active[id]
        }),
{
}

/// A client that goes away cancels its own call and no other, and frees nothing.
pub proof fn law_disconnect_touches_one_call(state: HttpStateView, call_id: u64, other: u64)
    requires
        other != call_id,
    ensures
        after_disconnect(state, call_id).active.contains_key(other)
            == state.active.contains_key(other),
        state.active.contains_key(other) ==> after_disconnect(state, call_id).active[other]
            == state.active[other],
        after_disconnect(state, call_id).permits == state.permits,
        state.active.contains_key(call_id) ==> after_disconnect(
            state,
            call_id,
        ).active[call_id].cancelled,
{
}

/// A client that goes away after its call completed cancels nothing.
pub proof fn law_disconnect_after_completion(state: HttpStateView, call_id: u64)
    ensures
        after_disconnect(after_completion(state, call_id), call_id) == after_completion(
            state,
            call_id,
        ),
{
}

/// Once every active call has completed, the server is idle.
pub proof fn law_completions_make_idle(state: HttpStateView, calls: Seq<u64>)
    requires
        forall|id: u64| #[trigger] state.active.contains_key(id) ==> calls.contains(id),
    ensures
        run(state, completions(calls)).active == Map::<
            u64,
            CallLifecycle,
        >::empty(),
{
    lemma_completed_calls_are_gone(state, calls);
    let idle = run(state, completions(calls));
    assert(idle.active =~= Map::<u64, CallLifecycle>::empty());
}

proof fn lemma_completed_calls_are_gone(state: HttpStateView, calls: Seq<u64>)
    ensures
        forall|id: u64| #[trigger]
            run(state, completions(calls)).active.contains_key(id)
                ==> state.active.contains_key(id) && !calls.contains(id),
    decreases calls.len(),
{
    let history = completions(calls);
    if calls.len() > 0 {
        let fewer = calls.drop_last();
        lemma_completed_calls_are_gone(state, fewer);
        assert(history.drop_last() =~= completions(fewer));
        assert(history.last() == Operation::Complete(calls.last()));
        assert forall|id: u64| #[trigger]
            run(state, history).active.contains_key(id) implies state.active.contains_key(id)
            && !calls.contains(id) by {
            assert(run(state, history.drop_last()).active.contains_key(id));
            if calls.contains(id) {
                let i = choose|i: int| 0 <= i < calls.len() && calls[i] == id;
                if i < fewer.len() {
                    assert(fewer[i] == id);
                }
            }
        }
    }
}

/// A server that has just started has no calls, can take 32, gives out ids from one on, and has the
/// port and the token that it was started with.
pub proof fn law_server_starts_empty(port: u16, token: Seq<u8>)
    ensures
        initial_state(port, token).port == port,
        initial_state(port, token).token == token,
        initial_state(port, token).permits == 32,
        forall|id: u64| !#[trigger] initial_state(port, token).active.contains_key(id),
        initial_state(port, token).next_call_id == 1,
        !initial_state(port, token).shutting_down,
{
}

/// To take a permit is to have one less, and changes nothing else.
pub proof fn law_acquisition_takes_one_permit(state: HttpStateView)
    requires
        state.permits > 0,
    ensures
        after_acquisition(state).permits + 1 == state.permits,
        after_acquisition(state).active == state.active,
        after_acquisition(state).next_call_id == state.next_call_id,
        after_acquisition(state).shutting_down == state.shutting_down,
        after_acquisition(state).port == state.port,
        after_acquisition(state).token == state.token,
{
}

/// To register a call adds it under the next id, cancelled exactly where the server is shutting
/// down, and moves the id on by one, round the end of their range; no other call, no permit and
/// nothing else changes.
pub proof fn law_registration_adds_one_call(state: HttpStateView, other: u64)
    requires
        other != state.next_call_id,
    ensures
        after_registration(state).active.contains_key(state.next_call_id),
        after_registration(state).active[state.next_call_id].cancelled == state.shutting_down,
        after_registration(state).active.contains_key(other) == state.active.contains_key(other),
        state.active.contains_key(other) ==> after_registration(state).active[other]
            == state.active[other],
        after_registration(state).next_call_id == (state.next_call_id + 1) % (u64::MAX + 1),
        after_registration(state).permits == state.permits,
        after_registration(state).shutting_down == state.shutting_down,
        after_registration(state).port == state.port,
        after_registration(state).token == state.token,
{
}

/// To admit a call is to take a permit for it and to register it.
pub proof fn law_admission_is_permit_and_registration(state: HttpStateView, other: u64)
    requires
        state.permits > 0,
        other != state.next_call_id,
    ensures
        after_admission(state).permits + 1 == state.permits,
        after_admission(state).active.contains_key(state.next_call_id),
        after_admission(state).active[state.next_call_id].cancelled == state.shutting_down,
        after_admission(state).active.contains_key(other) == state.active.contains_key(other),
        state.active.contains_key(other) ==> after_admission(state).active[other]
            == state.active[other],
        after_admission(state).next_call_id == (state.next_call_id + 1) % (u64::MAX + 1),
        after_admission(state).shutting_down == state.shutting_down,
        after_admission(state).port == state.port,
        after_admission(state).token == state.token,
{
    law_registration_adds_one_call(after_acquisition(state), other);
}

/// A permit that was taken and not used comes back: to give it back undoes to take it.
pub proof fn law_release_undoes_acquisition(state: HttpStateView)
    requires
        state.permits > 0,
        state.permits + state.active.len() <= 32,
    ensures
        after_release(after_acquisition(state)) == state,
{
}

/// To give a permit back frees one exactly where some permit is held by no active call, and changes
/// nothing else.
pub proof fn law_release_frees_what_no_call_holds(state: HttpStateView)
    ensures
        state.permits + state.active.len() < 32 ==> after_release(state).permits == state.permits
            + 1,
        state.permits + state.active.len() >= 32 ==> after_release(state).permits == state.permits,
        after_release(state).active == state.active,
        after_release(state).next_call_id == state.next_call_id,
        after_release(state).shutting_down == state.shutting_down,
        after_release(state).port == state.port,
        after_release(state).token == state.token,
{
}

/// A call that completes is active no longer and frees its permit; no other call and nothing else
/// changes.
pub proof fn law_completion_removes_one_call(state: HttpStateView, call_id: u64, other: u64)
    requires
        state.active.dom().finite(),
        state.permits + state.active.len() <= 32,
        other != call_id,
    ensures
        !after_completion(state, call_id).active.contains_key(call_id),
        after_completion(state, call_id).active.contains_key(other) == state.active.contains_key(
            other,
        ),
        state.active.contains_key(other) ==> after_completion(state, call_id).active[other]
            == state.active[other],
        state.active.contains_key(call_id) ==> after_completion(state, call_id).permits
            == state.permits + 1,
        !state.active.contains_key(call_id) && state.permits + state.active.len() == 32
            ==> after_completion(state, call_id).permits == state.permits,
        after_completion(state, call_id).next_call_id == state.next_call_id,
        after_completion(state, call_id).shutting_down == state.shutting_down,
        after_completion(state, call_id).port == state.port,
        after_completion(state, call_id).token == state.token,
{
    if !state.active.contains_key(call_id) {
        assert(state.active.remove(call_id) =~= state.active);
    }
}

/// Completion undoes admission, but for the id that it used up.
pub proof fn law_completion_undoes_admission(state: HttpStateView)
    requires
        state.permits > 0,
        state.active.dom().finite(),
        state.permits + state.active.len() <= 32,
        !state.active.contains_key(state.next_call_id),
    ensures
        after_completion(after_admission(state), state.next_call_id).permits == state.permits,
        after_completion(after_admission(state), state.next_call_id).active == state.active,
{
    let admitted = after_admission(state);
    assert(admitted.active.remove(state.next_call_id) =~= state.active);
}

/// A client that goes away changes nothing but that its own call, where it is active, is cancelled.
pub proof fn law_disconnect_changes_nothing_else(state: HttpStateView, call_id: u64)
    ensures
        after_disconnect(state, call_id).active.dom() =~= state.active.dom(),
        !state.active.contains_key(call_id) ==> after_disconnect(state, call_id) == state,
        after_disconnect(state, call_id).permits == state.permits,
        after_disconnect(state, call_id).next_call_id == state.next_call_id,
        after_disconnect(state, call_id).shutting_down == state.shutting_down,
        after_disconnect(state, call_id).port == state.port,
        after_disconnect(state, call_id).token == state.token,
{
}

/// The shutdown cancels every active call, drops none and adds none, and changes nothing else.
pub proof fn law_shutdown_cancels_every_call(state: HttpStateView, call_id: u64)
    ensures
        after_shutdown(state).shutting_down,
        after_shutdown(state).active.contains_key(call_id) == state.active.contains_key(call_id),
        state.active.contains_key(call_id) ==> after_shutdown(state).active[call_id].cancelled,
        after_shutdown(state).permits == state.permits,
        after_shutdown(state).next_call_id == state.next_call_id,
        after_shutdown(state).port == state.port,
        after_shutdown(state).token == state.token,
{
}

/// A call is admitted, or gets a permit, exactly where one is free; otherwise nothing happens.
pub proof fn law_admission_goes_by_free_permits(state: HttpStateView)
    ensures
        state.permits == 0 ==> apply(state, Operation::Admit) == state,
        state.permits == 0 ==> apply(state, Operation::Acquire) == state,
        state.permits > 0 ==> apply(state, Operation::Admit).permits + 1 == state.permits,
        state.permits > 0 ==> apply(state, Operation::Acquire).permits + 1 == state.permits,
{
}

/// A call that was turned away is answered with its rejection, in a response that came through all
/// right.
pub proof fn law_rejection_is_answered(rejection: CapacityRejection, reply: Reply)
    requires
        call_ensures(CapacityRejection::into_response, (rejection,), reply),
    ensures
        reply@ == (ReplyView {
            status: 200,
            fields: seq![("content-type"@, "application/json"@)],
            body: ReplyBodyView::Message(rejection.message@),
        }),
{
}

} // verus!
