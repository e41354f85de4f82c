//! Where capabilities can come from. A capability is held where a slot of a CNode has it,
//! or where a thread that waits to send has attached it to its message.

use vstd::prelude::*;

use crate::admin::{retype_request, retype_step};
use crate::cap::{
    law_derivation_is_a_preorder, slot, CNodeId, CPtr, Capability, Rights, TcbId,
};
use crate::cnode::{self, administered, cnode_named, minted};
use crate::error::SyscallError;
use crate::frame::PagingAction;
use crate::ipc::{
    attached, call_step, endpoint_named, outgoing, recv_step, reply_step, send_step,
};
use crate::model::KernelModel;
use crate::object::{EndpointModel, ThreadState};
use crate::pool::{entry, law_first_free_exists};
use crate::resources::{law_objects_come_from_retype, law_retype_gives_what_was_asked};
use crate::syscall::{asks_to_map, syscall_step, translated_step, trap_step, SyscallNumber, Trap};
use crate::trap::Registers;

verus! {

impl KernelModel {
    /// What slot `cptr` of the CNode `id` has.
    pub open spec fn in_slot(self, id: CNodeId, cptr: CPtr) -> Option<Capability> {
        match self.cnode(id) {
            Some(slots) => slot(slots, cptr),
            None => None,
        }
    }

    /// What the thread `id`, waiting to send, has attached to its message.
    pub open spec fn in_flight(self, id: TcbId) -> Option<Capability> {
        match self.tcb(id) {
            Some(tcb) => match tcb.state {
                ThreadState::BlockedSend { extra_cap, .. } => extra_cap,
                _ => None,
            },
            None => None,
        }
    }

    /// Whether somebody has `cap`.
    pub open spec fn holds(self, cap: Capability) -> bool {
        ||| exists|id: CNodeId, cptr: CPtr| #[trigger] self.in_slot(id, cptr) == Some(cap)
        ||| exists|id: TcbId| #[trigger] self.in_flight(id) == Some(cap)
    }

    /// Whether `cap` designates an object of a kind that a retype can make, and that does
    /// not exist.
    pub open spec fn lacks(self, cap: Capability) -> bool {
        match cap {
            Capability::Null | Capability::Untyped { .. } | Capability::Reply { .. } => false,
            Capability::CNode(id) => self.cnode(id) is None,
            Capability::Endpoint { id, .. } => self.endpoint(id) is None,
            Capability::Notification { id, .. } => self.notification(id) is None,
            Capability::Tcb { id, .. } => self.tcb(id) is None,
            Capability::SchedContext { id, .. } => entry(self.sched_contexts, id.0 as int) is None,
            Capability::VSpace { id, .. } => self.vspace(id) is None,
            Capability::Frame { id, .. } => self.frame(id) is None,
        }
    }

    /// Whether `cap` is no capability, or derives from one that somebody has.
    pub open spec fn backs(self, cap: Capability) -> bool {
        ||| cap == Capability::Null
        ||| exists|origin: Capability| #[trigger] self.holds(origin) && cap.derives_from(origin)
    }

    /// Whether `cap` may be there once this kernel has become `after`: it derives from what
    /// somebody had, or it designates an object that was made in between.
    pub open spec fn accounts_for(self, after: KernelModel, cap: Capability) -> bool {
        ||| self.backs(cap)
        ||| self.lacks(cap) && !after.lacks(cap)
    }

    /// Nothing but `cap` is where it was not before.
    spec fn gained_only(self, after: KernelModel, cap: Capability) -> bool {
        &&& forall|id: CNodeId, cptr: CPtr|
            (#[trigger] after.in_slot(id, cptr)) matches Some(found) ==> found == Capability::Null
                || found == cap || self.in_slot(id, cptr) == Some(found)
        &&& forall|id: TcbId|
            (#[trigger] after.in_flight(id)) matches Some(found) ==> found == cap || self.in_flight(
                id,
            ) == Some(found)
    }
}

proof fn lemma_gained_only(k: KernelModel, after: KernelModel, cap: Capability)
    requires
        k.gained_only(after, cap),
        k.backs(cap),
    ensures
        forall|found: Capability| #[trigger] after.holds(found) ==> k.backs(found),
{
    assert forall|found: Capability| #[trigger] after.holds(found) implies k.backs(found) by {
        law_derivation_is_a_preorder(found, found, found);
        if found != cap && found != Capability::Null {
            if exists|id: CNodeId, cptr: CPtr| #[trigger] after.in_slot(id, cptr) == Some(found) {
                let (id, cptr) = choose|id: CNodeId, cptr: CPtr| #[trigger]
                    after.in_slot(id, cptr) == Some(found);
                assert(k.in_slot(id, cptr) == Some(found));
            } else {
                let id = choose|id: TcbId| #[trigger] after.in_flight(id) == Some(found);
                assert(k.in_flight(id) == Some(found));
            }
            assert(k.holds(found));
        }
    }
}

/// Whatever a thread looks up is held.
proof fn lemma_lookup_is_held(k: KernelModel, thread: TcbId, cptr: CPtr)
    ensures
        k.lookup(thread, cptr) matches Ok(cap) ==> k.holds(cap) && k.backs(cap),
{
    if let Ok(cap) = k.lookup(thread, cptr) {
        law_derivation_is_a_preorder(cap, cap, cap);
        assert(k.in_slot(k.cspace(thread)->0, cptr) == Some(cap));
        assert(k.holds(cap));
    }
}

proof fn lemma_attached_is_held(k: KernelModel, thread: TcbId, regs: Registers)
    ensures
        attached(k, thread, regs) matches Ok(Some(cap)) ==> k.backs(cap),
{
    lemma_lookup_is_held(k, thread, regs.mrs[1]);
}

/// What minting makes derives from what it was made of.
pub proof fn law_mint_never_amplifies(source: Capability, packed: usize)
    ensures
        minted(source, packed) matches Ok(cap) ==> cap.derives_from(source) && cap.rights()
            == Rights::from_bits_truncate((packed & 0xFF) as u8),
{
}

proof fn lemma_cnode_invoke(k: KernelModel, current: TcbId, cptr: CPtr, regs: Registers)
    ensures
        forall|found: Capability| #[trigger]
            cnode::invoke_step(k, current, cptr, regs).kernel.holds(found) ==> k.backs(found),
{
    let after = cnode::invoke_step(k, current, cptr, regs).kernel;
    if let Ok(id) = cnode_named(k, current, cptr) {
        if administered(k, current, id, regs) is Ok {
            let source = if regs.tag.label == cnode::LABEL_COPY_CROSS {
                k.held(cnode_named(k, current, regs.mrs[1])->Ok_0, regs.mrs[2])
            } else {
                k.held(id, regs.mrs[1])
            }->Ok_0;
            let cap = if regs.tag.label == cnode::LABEL_MINT {
                minted(source, regs.mrs[3])->Ok_0
            } else {
                source
            };
            law_mint_never_amplifies(source, regs.mrs[3]);
            law_derivation_is_a_preorder(source, source, source);
            let (owner, from) = if regs.tag.label == cnode::LABEL_COPY_CROSS {
                (cnode_named(k, current, regs.mrs[1])->Ok_0, regs.mrs[2])
            } else {
                (id, regs.mrs[1])
            };
            assert(k.in_slot(owner, from) == Some(source));
            assert(k.holds(source));
            assert(k.backs(cap));
            assert(k.gained_only(after, cap));
            lemma_gained_only(k, after, cap);
        } else {
            lemma_gained_only(k, after, Capability::Null);
        }
    } else {
        lemma_gained_only(k, after, Capability::Null);
    }
}

/// A capability on its way appears nowhere but at its destination.
proof fn lemma_transferred(
    k: KernelModel,
    receiver: TcbId,
    dest: Option<CPtr>,
    cap: Option<Capability>,
)
    ensures
        k.transferred(receiver, dest, cap) matches Ok(after) ==> after == (KernelModel {
            cnodes: after.cnodes,
            ..k
        }) && match cap {
            Some(cap) => k.gained_only(after, cap),
            None => after == k,
        },
{
}

proof fn lemma_send(k: KernelModel, current: TcbId, cptr: CPtr, regs: Registers, nonblocking: bool)
    ensures
        forall|found: Capability| #[trigger]
            send_step(k, current, cptr, regs, nonblocking).kernel.holds(found) ==> k.backs(
                found,
            ),
{
    let after = send_step(k, current, cptr, regs, nonblocking).kernel;
    lemma_attached_is_held(k, current, regs);
    if let Ok((id, message)) = outgoing(k, current, cptr, regs, 1) {
        let cap = match message.cap {
            Some(cap) => cap,
            None => Capability::Null,
        };
        if let Some(EndpointModel::Recv(waiters)) = k.endpoint(id) {
            lemma_transferred(k, waiters[0], k.receive_slot(waiters[0]), message.cap);
        }
        assert(k.gained_only(after, cap));
        lemma_gained_only(k, after, cap);
    } else {
        lemma_gained_only(k, after, Capability::Null);
    }
}

proof fn lemma_recv(k: KernelModel, current: TcbId, cptr: CPtr, regs: Registers)
    ensures
        forall|found: Capability| #[trigger]
            recv_step(k, current, cptr, regs).kernel.holds(found) ==> k.backs(found),
{
    let after = recv_step(k, current, cptr, regs).kernel;
    let cap = match endpoint_named(k, current, cptr, Rights::read()) {
        Ok((id, _)) => match k.endpoint(id) {
            Some(EndpointModel::Send(waiters)) => k.in_flight(waiters[0]),
            _ => None,
        },
        Err(_) => None,
    };
    lemma_transferred(k, current, regs.named_slot(1), cap);
    if let Some(cap) = cap {
        law_derivation_is_a_preorder(cap, cap, cap);
        assert(k.holds(cap));
        assert(k.gained_only(after, cap));
        lemma_gained_only(k, after, cap);
    } else {
        assert(k.gained_only(after, Capability::Null));
        lemma_gained_only(k, after, Capability::Null);
    }
}

proof fn lemma_call(k: KernelModel, current: TcbId, cptr: CPtr, regs: Registers)
    ensures
        forall|found: Capability| #[trigger]
            call_step(k, current, cptr, regs).kernel.holds(found) ==> k.backs(found),
{
    let after = call_step(k, current, cptr, regs).kernel;
    lemma_attached_is_held(k, current, regs);
    if let Ok((id, message)) = outgoing(k, current, cptr, regs, 2) {
        let cap = match message.cap {
            Some(cap) => cap,
            None => Capability::Null,
        };
        if let Some(EndpointModel::Recv(waiters)) = k.endpoint(id) {
            lemma_transferred(k, waiters[0], k.receive_slot(waiters[0]), message.cap);
        }
        assert(k.gained_only(after, cap));
        lemma_gained_only(k, after, cap);
    } else {
        lemma_gained_only(k, after, Capability::Null);
    }
}

proof fn lemma_reply(k: KernelModel, current: TcbId, regs: Registers)
    ensures
        forall|found: Capability| #[trigger]
            reply_step(k, current, regs).kernel.holds(found) ==> k.backs(found),
{
    let after = reply_step(k, current, regs).kernel;
    lemma_attached_is_held(k, current, regs);
    match (attached(k, current, regs), k.reply_target(current)) {
        (Ok(Some(cap)), Some(target)) => {
            lemma_transferred(k, target, k.reply_slot(target), Some(cap));
            assert(k.gained_only(after, cap));
            lemma_gained_only(k, after, cap);
        },
        _ => {
            assert(k.gained_only(after, Capability::Null));
            lemma_gained_only(k, after, Capability::Null);
        },
    }
}

proof fn lemma_retype(k: KernelModel, current: TcbId, cptr: CPtr, regs: Registers)
    requires
        k.wf(),
    ensures
        forall|found: Capability| #[trigger]
            retype_step(k, current, cptr, regs).kernel.holds(found) ==> k.accounts_for(
                retype_step(k, current, cptr, regs).kernel,
                found,
            ),
{
    let after = retype_step(k, current, cptr, regs).kernel;
    let cap = if retype_step(k, current, cptr, regs).result is Ok {
        law_retype_gives_what_was_asked(k, current, cptr, regs);
        after.lookup(current, regs.mrs[2])->Ok_0
    } else {
        Capability::Null
    };
    assert forall|found: Capability| #[trigger] after.holds(found) implies k.accounts_for(
        after,
        found,
    ) by {
        law_derivation_is_a_preorder(found, found, found);
        if found != cap && found != Capability::Null {
            if exists|id: CNodeId, slot: CPtr| #[trigger] after.in_slot(id, slot) == Some(found) {
                let (id, slot) = choose|id: CNodeId, slot: CPtr| #[trigger]
                    after.in_slot(id, slot) == Some(found);
                law_new_authority_goes_to_its_maker(k, current, cptr, regs, id, slot, current);
                assert(k.in_slot(id, slot) == Some(found));
            } else {
                let id = choose|id: TcbId| #[trigger] after.in_flight(id) == Some(found);
                law_new_authority_goes_to_its_maker(
                    k,
                    current,
                    cptr,
                    regs,
                    CNodeId(0),
                    0,
                    id,
                );
                assert(k.in_flight(id) == Some(found));
            }
            assert(k.holds(found));
        }
    }
}

/// What a retype makes goes to the slot that its caller has named, in the caller's own
/// CSpace, and nowhere else: every other slot is as it was, those of a new CNode are empty,
/// and nothing is attached to any message.
pub proof fn law_new_authority_goes_to_its_maker(
    k: KernelModel,
    current: TcbId,
    cptr: CPtr,
    regs: Registers,
    id: CNodeId,
    slot: CPtr,
    thread: TcbId,
)
    requires
        k.wf(),
    ensures
        ({
            let after = retype_step(k, current, cptr, regs).kernel;
            let made = retype_step(k, current, cptr, regs).result is Ok;
            &&& !(made && k.cspace(current) == Some(id) && slot == regs.mrs[2])
                ==> after.in_slot(id, slot) == k.in_slot(id, slot) || k.cnode(id) is None
                && after.in_slot(id, slot) == Some(Capability::Null)
            &&& made ==> k.lookup(current, regs.mrs[2]) == Err::<Capability, SyscallError>(
                SyscallError::InvalidCapability,
            )
            &&& after.cspace(current) == k.cspace(current)
            &&& after.in_flight(thread) == k.in_flight(thread)
        }),
{
    law_first_free_exists(k.cnodes);
    law_first_free_exists(k.tcbs);
    if let Ok((source, object_type, cspace)) = retype_request(k, current, cptr, regs) {
        let made = k.created(source, object_type);
        assert(made.kernel.cnode(cspace) == k.cnode(cspace));
        assert(made.kernel.in_slot(id, slot) == k.in_slot(id, slot) || k.cnode(id) is None
            && made.kernel.in_slot(id, slot) == Some(Capability::Null));
        assert(made.kernel.in_flight(thread) == k.in_flight(thread));
        assert(made.kernel.cspace(current) == k.cspace(current));
    }
}

proof fn lemma_syscall(k: KernelModel, current: TcbId, syscall: SyscallNumber, regs: Registers)
    requires
        syscall != SyscallNumber::UntypedRetype,
    ensures
        forall|found: Capability| #[trigger]
            syscall_step(k, current, syscall, regs).kernel.holds(found) ==> k.backs(found),
{
    let cptr = regs.mrs[0];
    let after = syscall_step(k, current, syscall, regs).kernel;
    match syscall {
        SyscallNumber::Send => lemma_send(k, current, cptr, regs, false),
        SyscallNumber::NBSend => lemma_send(k, current, cptr, regs, true),
        SyscallNumber::Recv => lemma_recv(k, current, cptr, regs),
        SyscallNumber::Call => lemma_call(k, current, cptr, regs),
        SyscallNumber::Reply => lemma_reply(k, current, regs),
        SyscallNumber::CNodeInvoke => lemma_cnode_invoke(k, current, cptr, regs),
        _ => {
            assert(k.gained_only(after, Capability::Null));
            lemma_gained_only(k, after, Capability::Null);
        },
    }
}

/// Authority is never made up. Whatever capability anybody has after a trap derives from
/// one that somebody had before, same object and no more rights, or, after a retype,
/// designates an object that was not there before and is there now. Untyped memory is never
/// made.
pub proof fn law_no_capability_from_nowhere(
    k: KernelModel,
    regs: Registers,
    translated: Option<usize>,
)
    requires
        k.wf(),
    ensures
        forall|cap: Capability| #[trigger]
            trap_step(k, regs).kernel.holds(cap) ==> k.accounts_for(
                trap_step(k, regs).kernel,
                cap,
            ),
        forall|cap: Capability| #[trigger]
            translated_step(k, regs, translated).kernel.holds(cap) ==> k.accounts_for(
                translated_step(k, regs, translated).kernel,
                cap,
            ),
        SyscallNumber::from_usize(regs.syscall_number) != Some(SyscallNumber::UntypedRetype)
            ==> forall|cap: Capability| #[trigger]
            trap_step(k, regs).kernel.holds(cap) ==> k.backs(cap),
        SyscallNumber::from_usize(regs.syscall_number) != Some(SyscallNumber::UntypedRetype)
            ==> forall|cap: Capability| #[trigger]
            translated_step(k, regs, translated).kernel.holds(cap) ==> k.backs(cap),
{
    lemma_gained_only(k, k, Capability::Null);
    if let Some(current) = k.current {
        match SyscallNumber::from_usize(regs.syscall_number) {
            Some(SyscallNumber::UntypedRetype) => lemma_retype(k, current, regs.mrs[0], regs),
            Some(syscall) => lemma_syscall(k, current, syscall, regs),
            None => {},
        }
    }
    let mapped = translated_step(k, regs, translated).kernel;
    if k.current is Some && asks_to_map(regs) {
        assert(k.gained_only(mapped, Capability::Null));
        lemma_gained_only(k, mapped, Capability::Null);
    }
}

impl KernelModel {
    /// Whether the object that `cap` designates exists.
    pub open spec fn has_object(self, cap: Capability) -> bool {
        match cap {
            Capability::Null => true,
            Capability::Untyped { id, .. } => self.untyped(id) is Some,
            Capability::Reply { tcb } => self.tcb(tcb) is Some,
            _ => !self.lacks(cap),
        }
    }

    /// Every capability that anybody has designates an object that exists.
    pub open spec fn capabilities_are_live(self) -> bool {
        forall|cap: Capability| #[trigger] self.holds(cap) ==> self.has_object(cap)
    }

    /// Whatever exists in this kernel exists in `after`.
    spec fn objects_stay(self, after: KernelModel) -> bool {
        forall|cap: Capability| #[trigger] self.has_object(cap) ==> after.has_object(cap)
    }
}

/// A kernel without objects has no capability to any.
pub proof fn law_initial_capabilities_are_live()
    ensures
        KernelModel::initial().capabilities_are_live(),
{
    let k = KernelModel::initial();
    assert forall|id: CNodeId, cptr: CPtr| #[trigger] k.in_slot(id, cptr) is None by {}
    assert forall|id: TcbId| #[trigger] k.in_flight(id) is None by {}
}

proof fn lemma_objects_stay(k: KernelModel, after: KernelModel)
    requires
        k.same_objects(after),
    ensures
        k.objects_stay(after),
{
}

proof fn lemma_retyped_objects_stay(k: KernelModel, current: TcbId, cptr: CPtr, regs: Registers)
    requires
        k.wf(),
    ensures
        k.objects_stay(retype_step(k, current, cptr, regs).kernel),
{
    law_first_free_exists(k.tcbs);
    law_first_free_exists(k.cnodes);
    law_first_free_exists(k.endpoints);
    law_first_free_exists(k.notifications);
    law_first_free_exists(k.sched_contexts);
    law_first_free_exists(k.vspaces);
    law_first_free_exists(k.frames);
    if let Ok((source, object_type, cspace)) = retype_request(k, current, cptr, regs) {
        let made = k.created(source, object_type);
        assert(k.objects_stay(made.kernel));
        if let Ok(cap) = made.cap {
            let after = made.kernel.with_cap(cspace, regs.mrs[2], cap).charged(source);
            assert(made.kernel.objects_stay(after));
        }
    }
}

proof fn lemma_live(k: KernelModel, after: KernelModel)
    requires
        k.capabilities_are_live(),
        k.objects_stay(after),
        forall|cap: Capability| #[trigger] after.holds(cap) ==> k.accounts_for(after, cap),
    ensures
        after.capabilities_are_live(),
{
    assert forall|cap: Capability| #[trigger] after.holds(cap) implies after.has_object(cap) by {
        if cap != Capability::Null && k.backs(cap) {
            let origin = choose|origin: Capability| #[trigger]
                k.holds(origin) && cap.derives_from(origin);
            assert(k.has_object(origin));
            assert(after.has_object(origin));
        }
    }
}

/// No trap leaves a capability to an object that does not exist. So what a retype makes is
/// reached by nobody but through the capability that came with it: none was there before.
pub proof fn law_traps_keep_capabilities_live(
    k: KernelModel,
    regs: Registers,
    translated: Option<usize>,
)
    requires
        k.wf(),
        k.capabilities_are_live(),
    ensures
        trap_step(k, regs).kernel.capabilities_are_live(),
        translated_step(k, regs, translated).kernel.capabilities_are_live(),
{
    law_no_capability_from_nowhere(k, regs, translated);
    let (first, second) = (trap_step(k, regs).kernel, translated_step(k, regs, translated).kernel);
    if SyscallNumber::from_usize(regs.syscall_number) == Some(SyscallNumber::UntypedRetype) {
        if let Some(current) = k.current {
            lemma_retyped_objects_stay(k, current, regs.mrs[0], regs);
        }
    } else {
        law_objects_come_from_retype(k, regs, translated);
        lemma_objects_stay(k, first);
        lemma_objects_stay(k, second);
    }
    lemma_live(k, first);
    lemma_live(k, second);
}

/// A capability goes with a message only by the right to grant it, and is one that the
/// sender can name.
pub proof fn law_transfer_needs_grant(k: KernelModel, thread: TcbId, regs: Registers)
    ensures
        attached(k, thread, regs) matches Ok(Some(cap)) ==> {
            &&& regs.tag.extra_caps == 1
            &&& k.lookup(thread, regs.mrs[1]) == Ok::<Capability, SyscallError>(cap)
            &&& cap.rights().contains(Rights::grant())
        },
{
}

/// A capability that arrives is found in the slot that the receiver named for it, which
/// was empty, and no other slot changes.
pub proof fn law_transfer_arrives(
    k: KernelModel,
    receiver: TcbId,
    dest: CPtr,
    cap: Capability,
    other_cnode: CNodeId,
    other_slot: CPtr,
)
    requires
        cap != Capability::Null,
        k.transferred(receiver, Some(dest), Some(cap)) is Ok,
    ensures
        ({
            let after = k.transferred(receiver, Some(dest), Some(cap))->Ok_0;
            &&& k.lookup(receiver, dest) == Err::<Capability, SyscallError>(
                SyscallError::InvalidCapability,
            )
            &&& after.lookup(receiver, dest) == Ok::<Capability, SyscallError>(cap)
            &&& (other_cnode, other_slot) != (k.cspace(receiver)->0, dest) ==> after.in_slot(
                other_cnode,
                other_slot,
            ) == k.in_slot(other_cnode, other_slot)
        }),
{
}

/// Nothing is done without a capability. A thread whose `mr0` names none gets an error,
/// and the kernel stays as it is, but for a reply, whose authority is the call that was
/// received, and for giving up the hart.
pub proof fn law_no_ambient_authority(k: KernelModel, regs: Registers, translated: Option<usize>)
    requires
        k.current matches Some(current) && k.lookup(current, regs.mrs[0]) is Err,
        SyscallNumber::from_usize(regs.syscall_number) matches Some(syscall) && syscall
            != SyscallNumber::Reply && syscall != SyscallNumber::Yield,
    ensures
        ({
            let error = k.lookup(k.current->0, regs.mrs[0])->Err_0;
            let refusal = Trap {
                kernel: k,
                regs: regs.failed(error.code()),
                action: PagingAction::Done,
            };
            &&& trap_step(k, regs) == refusal
            &&& translated_step(k, regs, translated) == refusal
        }),
{
}

/// Whether these registers ask for a capability to be moved or deleted.
pub open spec fn asks_to_remove(regs: Registers) -> bool {
    &&& SyscallNumber::from_usize(regs.syscall_number) == Some(SyscallNumber::CNodeInvoke)
    &&& regs.tag.label == cnode::LABEL_MOVE || regs.tag.label == cnode::LABEL_DELETE
}

/// Nothing writes over a capability: what a slot holds stays there through every trap
/// that does not ask for it to be moved or deleted. So what is sent with a message is a
/// copy, and its sender keeps its own.
pub proof fn law_capabilities_stay(
    k: KernelModel,
    regs: Registers,
    translated: Option<usize>,
    id: CNodeId,
    cptr: CPtr,
)
    requires
        k.wf(),
        !asks_to_remove(regs),
        k.in_slot(id, cptr) matches Some(cap) && cap != Capability::Null,
    ensures
        trap_step(k, regs).kernel.in_slot(id, cptr) == k.in_slot(id, cptr),
        translated_step(k, regs, translated).kernel.in_slot(id, cptr) == k.in_slot(id, cptr),
{
    if let Some(current) = k.current {
        if let Some(syscall) = SyscallNumber::from_usize(regs.syscall_number) {
            lemma_syscall_keeps(k, current, syscall, regs);
        }
    }
}

impl KernelModel {
    /// Every capability in a slot is still there.
    spec fn kept_by(self, after: KernelModel) -> bool {
        forall|id: CNodeId, cptr: CPtr| #[trigger]
            self.in_slot(id, cptr) matches Some(cap) && cap != Capability::Null
                ==> after.in_slot(id, cptr) == self.in_slot(id, cptr)
    }
}

proof fn lemma_transfer_keeps(
    k: KernelModel,
    receiver: TcbId,
    dest: Option<CPtr>,
    cap: Option<Capability>,
)
    ensures
        k.transferred(receiver, dest, cap) matches Ok(after) ==> k.kept_by(after),
{
}

proof fn lemma_send_keeps(
    k: KernelModel,
    current: TcbId,
    cptr: CPtr,
    regs: Registers,
    nonblocking: bool,
)
    ensures
        k.kept_by(send_step(k, current, cptr, regs, nonblocking).kernel),
{
    if let Ok((id, message)) = outgoing(k, current, cptr, regs, 1) {
        if let Some(EndpointModel::Recv(waiters)) = k.endpoint(id) {
            lemma_transfer_keeps(k, waiters[0], k.receive_slot(waiters[0]), message.cap);
        }
    }
}

proof fn lemma_recv_keeps(k: KernelModel, current: TcbId, cptr: CPtr, regs: Registers)
    ensures
        k.kept_by(recv_step(k, current, cptr, regs).kernel),
{
    if let Ok((id, _)) = endpoint_named(k, current, cptr, Rights::read()) {
        if let Some(EndpointModel::Send(waiters)) = k.endpoint(id) {
            lemma_transfer_keeps(k, current, regs.named_slot(1), k.in_flight(waiters[0]));
        }
    }
}

proof fn lemma_call_keeps(k: KernelModel, current: TcbId, cptr: CPtr, regs: Registers)
    ensures
        k.kept_by(call_step(k, current, cptr, regs).kernel),
{
    if let Ok((id, message)) = outgoing(k, current, cptr, regs, 2) {
        if let Some(EndpointModel::Recv(waiters)) = k.endpoint(id) {
            lemma_transfer_keeps(k, waiters[0], k.receive_slot(waiters[0]), message.cap);
        }
    }
}

proof fn lemma_reply_keeps(k: KernelModel, current: TcbId, regs: Registers)
    ensures
        k.kept_by(reply_step(k, current, regs).kernel),
{
    if let (Ok(cap), Some(target)) = (attached(k, current, regs), k.reply_target(current)) {
        lemma_transfer_keeps(k, target, k.reply_slot(target), cap);
    }
}

proof fn lemma_cnode_invoke_keeps(k: KernelModel, current: TcbId, cptr: CPtr, regs: Registers)
    requires
        regs.tag.label != cnode::LABEL_MOVE,
        regs.tag.label != cnode::LABEL_DELETE,
    ensures
        k.kept_by(cnode::invoke_step(k, current, cptr, regs).kernel),
{
}

proof fn lemma_retype_keeps(k: KernelModel, current: TcbId, cptr: CPtr, regs: Registers)
    requires
        k.wf(),
    ensures
        k.kept_by(retype_step(k, current, cptr, regs).kernel),
{
    if let Ok((source, object_type, cspace)) = retype_request(k, current, cptr, regs) {
        law_first_free_exists(k.cnodes);
        assert(k.kept_by(k.created(source, object_type).kernel));
    }
}

proof fn lemma_syscall_keeps(k: KernelModel, current: TcbId, syscall: SyscallNumber, regs: Registers)
    requires
        k.wf(),
        syscall == SyscallNumber::CNodeInvoke ==> regs.tag.label != cnode::LABEL_MOVE
            && regs.tag.label != cnode::LABEL_DELETE,
    ensures
        k.kept_by(syscall_step(k, current, syscall, regs).kernel),
{
    let cptr = regs.mrs[0];
    match syscall {
        SyscallNumber::Send => lemma_send_keeps(k, current, cptr, regs, false),
        SyscallNumber::NBSend => lemma_send_keeps(k, current, cptr, regs, true),
        SyscallNumber::Recv => lemma_recv_keeps(k, current, cptr, regs),
        SyscallNumber::Call => lemma_call_keeps(k, current, cptr, regs),
        SyscallNumber::Reply => lemma_reply_keeps(k, current, regs),
        SyscallNumber::CNodeInvoke => lemma_cnode_invoke_keeps(k, current, cptr, regs),
        SyscallNumber::UntypedRetype => lemma_retype_keeps(k, current, cptr, regs),
        _ => {},
    }
}

} // verus!
