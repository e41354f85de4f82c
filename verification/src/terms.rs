//! What can be seen of the kernel by looking: what a slot holds, what a capability permits,
//! what a thread has, and what a trap hands back. What traps bring about is said in these
//! words in `crate::delivery`, `crate::turns`, `crate::grants` and `crate::pages`. They are
//! defined on the bare contents of the kernel and of the registers, with the numbers that
//! user code sees, and on nothing that the syscalls themselves are made of.

use vstd::prelude::*;

use crate::cap::{law_object_type_numbers, CPtr, Capability, ObjectType, Rights, TcbId};
use crate::error::SyscallError;
use crate::frame::PagingAction;
use crate::limits::{
    MAX_CNODES, MAX_ENDPOINTS, MAX_FRAMES, MAX_NOTIFICATIONS, MAX_SCHED_CONTEXTS, MAX_TCBS,
    MAX_UNTYPEDS, MAX_VSPACES,
};
use crate::model::KernelModel;
use crate::object::{TcbModel, ThreadState};
use crate::syscall::{law_syscall_numbers, syscall_step, trap_step, SyscallNumber, Trap};
use crate::trap::{MessageTag, Registers};

verus! {

impl KernelModel {
    pub open spec fn has_thread(self, id: TcbId) -> bool {
        id.0 < self.tcbs.len() && self.tcbs[id.0 as int] is Some
    }

    /// The thread `id`, where there is one.
    pub open spec fn thread(self, id: TcbId) -> TcbModel {
        self.tcbs[id.0 as int]->0
    }

    /// Whether the thread `id` has a CNode to look capabilities up in.
    pub open spec fn has_slots(self, id: TcbId) -> bool {
        &&& self.has_thread(id)
        &&& self.thread(id).cspace matches Some(cspace) && cspace.0 < self.cnodes.len()
            && self.cnodes[cspace.0 as int] is Some
    }

    /// The slots of that CNode.
    pub open spec fn slots(self, id: TcbId) -> Seq<Capability> {
        let cspace = self.thread(id).cspace->Some_0;
        self.cnodes[cspace.0 as int]->0
    }

    /// Whether the thread `id` has a slot `cptr`.
    pub open spec fn sees(self, id: TcbId, cptr: CPtr) -> bool {
        self.has_slots(id) && cptr < self.slots(id).len()
    }

    /// What that slot holds.
    pub open spec fn seen(self, id: TcbId, cptr: CPtr) -> Capability {
        self.slots(id)[cptr as int]
    }

    /// Every thread but these two is as it was.
    pub open spec fn keeps_threads(self, after: KernelModel, a: TcbId, b: TcbId) -> bool {
        &&& after.tcbs.len() == self.tcbs.len()
        &&& forall|i: int|
            0 <= i < self.tcbs.len() && i != a.0 && i != b.0 ==> #[trigger] after.tcbs[i]
                == self.tcbs[i]
    }
}

/// The bit of the right to read.
pub const READ_BIT: u8 = 1;

/// The bit of the right to write.
pub const WRITE_BIT: u8 = 2;

/// The bit of the right to grant.
pub const GRANT_BIT: u8 = 4;

/// The rights of a capability, a bit for each.
pub open spec fn rights_bits(cap: Capability) -> u8 {
    match cap {
        Capability::Untyped { rights, .. } => rights@,
        Capability::Endpoint { rights, .. } => rights@,
        Capability::Notification { rights, .. } => rights@,
        Capability::Tcb { rights, .. } => rights@,
        Capability::SchedContext { rights, .. } => rights@,
        Capability::VSpace { rights, .. } => rights@,
        Capability::Frame { rights, .. } => rights@,
        Capability::Null | Capability::CNode(_) | Capability::Reply { .. } => 0,
    }
}

/// Whether `cap` has the right that `bit` stands for.
pub open spec fn permits(cap: Capability, bit: u8) -> bool {
    rights_bits(cap) & bit == bit
}

/// `tag` with its error bit, the lowest of the flags, cleared.
pub open spec fn without_error(tag: MessageTag) -> MessageTag {
    MessageTag { flags: tag.flags & !1u8, ..tag }
}

/// `tag` with its error bit set.
pub open spec fn with_error(tag: MessageTag) -> MessageTag {
    MessageTag { flags: tag.flags | 1u8, ..tag }
}

/// `after` has these message registers and this tag, and everything else of `before`.
pub open spec fn reads(
    before: Registers,
    after: Registers,
    mrs: Seq<usize>,
    tag: MessageTag,
) -> bool {
    &&& after.mrs == mrs
    &&& after.tag == tag
    &&& after.raw == before.raw
    &&& after.syscall_number == before.syscall_number
}

impl Trap {
    /// Nothing has changed, and the thread that trapped goes on: it finds `code` in `mr0`,
    /// and the error bit set.
    pub open spec fn refuses(self, k: KernelModel, regs: Registers, code: usize) -> bool {
        &&& self.kernel == k
        &&& self.action is Done
        &&& reads(regs, self.regs, regs.mrs.update(0, code), with_error(regs.tag))
    }

    /// The registers are as they were, with the error bit cleared, and the page tables stay
    /// as they are.
    pub open spec fn reports_success(self, regs: Registers) -> bool {
        &&& self.action is Done
        &&& reads(regs, self.regs, regs.mrs, without_error(regs.tag))
    }
}

/// The address space that is active once `next` runs: its own, or, where it has none,
/// whatever was.
pub open spec fn active_under(k: KernelModel, next: TcbId) -> Option<usize> {
    match k.thread(next).address_space {
        Some(root) => Some(root),
        None => k.activation,
    }
}

/// `current` is in the state `state`, with `regs` put away, and the first of the ready
/// queue runs instead, with its own registers and in its own address space.
pub open spec fn gives_way(
    k: KernelModel,
    trap: Trap,
    current: TcbId,
    regs: Registers,
    state: ThreadState,
) -> bool {
    let next = k.ready[0];
    &&& trap.action is Done
    &&& trap.kernel.current == Some(next)
    &&& trap.kernel.ready == k.ready.skip(1)
    &&& trap.kernel.activation == active_under(k, next)
    &&& trap.regs == k.thread(next).context
    &&& trap.kernel.has_thread(next)
    &&& trap.kernel.thread(next) == (TcbModel { state: ThreadState::Running, ..k.thread(next) })
    &&& trap.kernel.has_thread(current)
    &&& trap.kernel.thread(current) == (TcbModel { state, context: regs, ..k.thread(current) })
    &&& k.keeps_threads(trap.kernel, current, next)
}

/// What a lookup answers: a thread without a CNode, and a slot past the end of it, are
/// failed lookups; an empty slot is an invalid capability; any other slot gives what it
/// holds.
pub proof fn law_a_lookup_gives_what_the_slot_holds(k: KernelModel, id: TcbId, cptr: CPtr)
    ensures
        k.lookup(id, cptr) == if !k.sees(id, cptr) {
            Err::<Capability, SyscallError>(SyscallError::FailedLookup)
        } else if k.seen(id, cptr) is Null {
            Err(SyscallError::InvalidCapability)
        } else {
            Ok(k.seen(id, cptr))
        },
{
}

/// Each syscall has its number, each error its code, and each type of object its number.
pub proof fn law_numbers_and_codes()
    ensures
        SyscallNumber::Send.number() == 1,
        SyscallNumber::NBSend.number() == 2,
        SyscallNumber::Recv.number() == 3,
        SyscallNumber::Call.number() == 4,
        SyscallNumber::Reply.number() == 5,
        SyscallNumber::Signal.number() == 6,
        SyscallNumber::Wait.number() == 7,
        SyscallNumber::Poll.number() == 8,
        SyscallNumber::CNodeInvoke.number() == 9,
        SyscallNumber::UntypedRetype.number() == 10,
        SyscallNumber::TCBConfigure.number() == 11,
        SyscallNumber::Yield.number() == 12,
        SyscallNumber::FrameInvoke.number() == 13,
        ObjectType::from_usize(0) == Some(ObjectType::CNode),
        ObjectType::from_usize(1) == Some(ObjectType::Untyped),
        ObjectType::from_usize(2) == Some(ObjectType::Endpoint),
        ObjectType::from_usize(3) == Some(ObjectType::Notification),
        ObjectType::from_usize(4) == Some(ObjectType::Tcb),
        ObjectType::from_usize(5) == Some(ObjectType::SchedContext),
        ObjectType::from_usize(6) == Some(ObjectType::VSpace),
        ObjectType::from_usize(7) == Some(ObjectType::FrameSmall),
        ObjectType::from_usize(8) == Some(ObjectType::FrameMega),
        SyscallError::InvalidCapability.code() == 1,
        SyscallError::InvalidArgument.code() == 2,
        SyscallError::IllegalOperation.code() == 3,
        SyscallError::RangeError.code() == 4,
        SyscallError::AlignmentError.code() == 5,
        SyscallError::FailedLookup.code() == 6,
        SyscallError::TruncatedMessage.code() == 7,
        SyscallError::NotEnoughMemory.code() == 8,
        SyscallError::Timeout.code() == 9,
{
    assert forall|t: ObjectType| ObjectType::from_usize(#[trigger] t.number()) == Some(t) by {
        law_object_type_numbers(t, 0);
    }
    assert(ObjectType::CNode.number() == 0 && ObjectType::Untyped.number() == 1);
    assert(ObjectType::Endpoint.number() == 2 && ObjectType::Notification.number() == 3);
    assert(ObjectType::Tcb.number() == 4 && ObjectType::SchedContext.number() == 5);
    assert(ObjectType::VSpace.number() == 6 && ObjectType::FrameSmall.number() == 7);
    assert(ObjectType::FrameMega.number() == 8);
}

/// Without a thread that runs, a trap does nothing. A number that is no syscall's is an
/// illegal operation.
pub proof fn law_other_numbers_are_refused(k: KernelModel, regs: Registers)
    ensures
        k.current is None ==> trap_step(k, regs) == (Trap {
            kernel: k,
            regs,
            action: PagingAction::Done,
        }),
        k.current is Some && (regs.syscall_number == 0 || regs.syscall_number > 13) ==> trap_step(
            k,
            regs,
        ).refuses(k, regs, 3),
{
    law_syscall_numbers(SyscallNumber::Send, regs.syscall_number);
}

/// The trap of a running thread that asks for `syscall` by its number.
pub(crate) proof fn lemma_asked(k: KernelModel, current: TcbId, syscall: SyscallNumber, regs: Registers)
    requires
        k.current == Some(current),
        regs.syscall_number == syscall.number(),
    ensures
        SyscallNumber::from_usize(regs.syscall_number) == Some(syscall),
        trap_step(k, regs) == syscall_step(k, current, syscall, regs).settled(),
{
    law_syscall_numbers(syscall, regs.syscall_number);
}

/// A capability tells its rights, and the type of what it designates; a frame capability does
/// not tell its size, and so no type.
pub proof fn law_a_capability_tells_its_rights_and_type(cap: Capability)
    ensures
        cap.rights()@ == rights_bits(cap),
        cap is CNode <==> cap.object_type() == Some(ObjectType::CNode),
        cap is Untyped <==> cap.object_type() == Some(ObjectType::Untyped),
        cap is Endpoint <==> cap.object_type() == Some(ObjectType::Endpoint),
        cap is Notification <==> cap.object_type() == Some(ObjectType::Notification),
        cap is Tcb <==> cap.object_type() == Some(ObjectType::Tcb),
        cap is SchedContext <==> cap.object_type() == Some(ObjectType::SchedContext),
        cap is VSpace <==> cap.object_type() == Some(ObjectType::VSpace),
        cap is Null || cap is Frame || cap is Reply <==> cap.object_type() is None,
{
    broadcast use Rights::lemma_of;

}

/// A kernel that has just started has room for as many objects of each kind as the limits
/// say, and no object; nobody runs, nobody is ready, and no address space is to be activated.
pub proof fn law_a_new_kernel_is_empty()
    ensures
        ({
            let k = KernelModel::initial();
            &&& k.cnodes.len() == MAX_CNODES && k.tcbs.len() == MAX_TCBS
            &&& k.endpoints.len() == MAX_ENDPOINTS && k.notifications.len() == MAX_NOTIFICATIONS
            &&& k.untypeds.len() == MAX_UNTYPEDS && k.sched_contexts.len() == MAX_SCHED_CONTEXTS
            &&& k.vspaces.len() == MAX_VSPACES && k.frames.len() == MAX_FRAMES
            &&& forall|i: int| 0 <= i < k.cnodes.len() ==> k.cnodes[i] is None
            &&& forall|i: int| 0 <= i < k.tcbs.len() ==> k.tcbs[i] is None
            &&& forall|i: int| 0 <= i < k.endpoints.len() ==> k.endpoints[i] is None
            &&& forall|i: int| 0 <= i < k.notifications.len() ==> k.notifications[i] is None
            &&& forall|i: int| 0 <= i < k.untypeds.len() ==> k.untypeds[i] is None
            &&& forall|i: int| 0 <= i < k.sched_contexts.len() ==> k.sched_contexts[i] is None
            &&& forall|i: int| 0 <= i < k.vspaces.len() ==> k.vspaces[i] is None
            &&& forall|i: int| 0 <= i < k.frames.len() ==> k.frames[i] is None
            &&& k.ready.len() == 0
            &&& k.current is None
            &&& k.activation is None
        }),
{
}

} // verus!
