//! The syscall table, and `dispatch`, which does what a trap asks for.

use vstd::prelude::*;

use crate::abi;
use crate::admin;
use crate::cap::TcbId;
use crate::cnode;
use crate::consistency::law_traps_keep_consistency;
use crate::error::SyscallError;
use crate::frame;
use crate::frame::{PagedStep, PagingAction};
use crate::ipc;
use crate::model::{KernelModel, Step};
use crate::state::KernelState;
use crate::trap::{Registers, TrapFrame};

verus! {

#[derive(Clone, Copy, PartialEq, Eq, Structural, Debug)]
pub enum SyscallNumber {
    Send,
    NBSend,
    Recv,
    Call,
    Reply,
    Signal,
    Wait,
    Poll,
    CNodeInvoke,
    UntypedRetype,
    TCBConfigure,
    Yield,
    FrameInvoke,
}

impl SyscallNumber {
    pub open spec fn spec_number(self) -> usize {
        match self {
            SyscallNumber::Send => 1,
            SyscallNumber::NBSend => 2,
            SyscallNumber::Recv => 3,
            SyscallNumber::Call => 4,
            SyscallNumber::Reply => 5,
            SyscallNumber::Signal => 6,
            SyscallNumber::Wait => 7,
            SyscallNumber::Poll => 8,
            SyscallNumber::CNodeInvoke => 9,
            SyscallNumber::UntypedRetype => 10,
            SyscallNumber::TCBConfigure => 11,
            SyscallNumber::Yield => 12,
            SyscallNumber::FrameInvoke => 13,
        }
    }

    /// The number by which user code asks for this syscall.
    #[verifier::when_used_as_spec(spec_number)]
    pub fn number(self) -> (number: usize)
        ensures
            number == self.spec_number(),
    {
        match self {
            SyscallNumber::Send => 1,
            SyscallNumber::NBSend => 2,
            SyscallNumber::Recv => 3,
            SyscallNumber::Call => 4,
            SyscallNumber::Reply => 5,
            SyscallNumber::Signal => 6,
            SyscallNumber::Wait => 7,
            SyscallNumber::Poll => 8,
            SyscallNumber::CNodeInvoke => 9,
            SyscallNumber::UntypedRetype => 10,
            SyscallNumber::TCBConfigure => 11,
            SyscallNumber::Yield => 12,
            SyscallNumber::FrameInvoke => 13,
        }
    }

    pub open spec fn spec_from_usize(n: usize) -> Option<SyscallNumber> {
        if exists|s: SyscallNumber| (#[trigger] s.number()) == n {
            Some(choose|s: SyscallNumber| (#[trigger] s.number()) == n)
        } else {
            None
        }
    }

    /// The syscall that has the number `n`.
    #[verifier::when_used_as_spec(spec_from_usize)]
    pub fn from_usize(n: usize) -> (syscall: Option<SyscallNumber>)
        ensures
            syscall == SyscallNumber::spec_from_usize(n),
    {
        let syscall = match n {
            1 => SyscallNumber::Send,
            2 => SyscallNumber::NBSend,
            3 => SyscallNumber::Recv,
            4 => SyscallNumber::Call,
            5 => SyscallNumber::Reply,
            6 => SyscallNumber::Signal,
            7 => SyscallNumber::Wait,
            8 => SyscallNumber::Poll,
            9 => SyscallNumber::CNodeInvoke,
            10 => SyscallNumber::UntypedRetype,
            11 => SyscallNumber::TCBConfigure,
            12 => SyscallNumber::Yield,
            13 => SyscallNumber::FrameInvoke,
            _ => return None,
        };
        assert(syscall.number() == n);
        Some(syscall)
    }
}

/// Every syscall is found by its number, and no other number finds one.
pub proof fn law_syscall_numbers(s: SyscallNumber, n: usize)
    ensures
        SyscallNumber::from_usize(s.number()) == Some(s),
        SyscallNumber::from_usize(n) matches Some(t) ==> t.number() == n,
        SyscallNumber::from_usize(n) is Some <==> 1 <= n <= 13,
{
    if 1 <= n <= 13 {
        let witness = if n == 1 {
            SyscallNumber::Send
        } else if n == 2 {
            SyscallNumber::NBSend
        } else if n == 3 {
            SyscallNumber::Recv
        } else if n == 4 {
            SyscallNumber::Call
        } else if n == 5 {
            SyscallNumber::Reply
        } else if n == 6 {
            SyscallNumber::Signal
        } else if n == 7 {
            SyscallNumber::Wait
        } else if n == 8 {
            SyscallNumber::Poll
        } else if n == 9 {
            SyscallNumber::CNodeInvoke
        } else if n == 10 {
            SyscallNumber::UntypedRetype
        } else if n == 11 {
            SyscallNumber::TCBConfigure
        } else if n == 12 {
            SyscallNumber::Yield
        } else {
            SyscallNumber::FrameInvoke
        };
        assert(witness.number() == n);
    }
}

/// What a trap leaves behind: the kernel, the registers of the thread that runs next, and
/// what has to be done with the page tables.
#[verifier::ext_equal]
pub struct Trap {
    pub kernel: KernelModel,
    pub regs: Registers,
    pub action: PagingAction,
}

impl Step {
    /// A step that leaves the page tables alone.
    pub open spec fn unpaged(self) -> PagedStep {
        PagedStep {
            kernel: self.kernel,
            regs: self.regs,
            result: match self.result {
                Ok(_) => Ok(PagingAction::Done),
                Err(error) => Err(error),
            },
        }
    }
}

impl PagedStep {
    /// The end of a trap. The thread that runs next learns of an error by its registers.
    pub open spec fn settled(self) -> Trap {
        match self.result {
            Ok(action) => Trap { kernel: self.kernel, regs: self.regs, action },
            Err(error) => Trap {
                kernel: self.kernel,
                regs: self.regs.failed(error.code()),
                action: PagingAction::Done,
            },
        }
    }
}

/// A yield. The thread joins the ready queue before the next one is picked, so that a
/// thread that is alone goes on.
pub open spec fn yield_step(k: KernelModel, current: TcbId, regs: Registers) -> Step {
    let step = k.made_ready(current).yielded(regs);
    Step { regs: step.regs.succeeded(), ..step }
}

/// What `current` gets by the syscall `syscall`. `mr0` names the capability to invoke.
pub open spec fn syscall_step(
    k: KernelModel,
    current: TcbId,
    syscall: SyscallNumber,
    regs: Registers,
) -> PagedStep {
    let cptr = regs.mrs[0];
    match syscall {
        SyscallNumber::Send => ipc::send_step(k, current, cptr, regs, false).unpaged(),
        SyscallNumber::NBSend => ipc::send_step(k, current, cptr, regs, true).unpaged(),
        SyscallNumber::Recv => ipc::recv_step(k, current, cptr, regs).unpaged(),
        SyscallNumber::Call => ipc::call_step(k, current, cptr, regs).unpaged(),
        SyscallNumber::Reply => ipc::reply_step(k, current, regs).unpaged(),
        SyscallNumber::Signal => ipc::signal_step(k, current, cptr, regs).unpaged(),
        SyscallNumber::Wait => ipc::wait_step(k, current, cptr, regs).unpaged(),
        SyscallNumber::Poll => ipc::poll_step(k, current, cptr, regs).unpaged(),
        SyscallNumber::CNodeInvoke => cnode::invoke_step(k, current, cptr, regs).unpaged(),
        SyscallNumber::UntypedRetype => admin::retype_step(k, current, cptr, regs).unpaged(),
        SyscallNumber::TCBConfigure => admin::configure_step(k, current, cptr, regs).unpaged(),
        SyscallNumber::Yield => yield_step(k, current, regs).unpaged(),
        SyscallNumber::FrameInvoke => frame::invoke_step(k, current, cptr, regs),
    }
}

/// A trap with these registers. Without a running thread nothing happens; a number that
/// is no syscall's is an illegal operation.
pub open spec fn trap_step(k: KernelModel, regs: Registers) -> Trap {
    match k.current {
        None => Trap { kernel: k, regs, action: PagingAction::Done },
        Some(current) => match SyscallNumber::from_usize(regs.syscall_number) {
            None => k.paged_refusal(regs, SyscallError::IllegalOperation).settled(),
            Some(syscall) => syscall_step(k, current, syscall, regs).settled(),
        },
    }
}

/// Whether these registers ask for a frame to be mapped.
pub open spec fn asks_to_map(regs: Registers) -> bool {
    &&& SyscallNumber::from_usize(regs.syscall_number) == Some(SyscallNumber::FrameInvoke)
    &&& regs.tag.label == frame::LABEL_MAP
}

/// The rest of a trap that asked for a translation, given what the page tables have at the
/// address. A trap that asks for something else is done as it is.
pub open spec fn translated_step(k: KernelModel, regs: Registers, translated: Option<usize>) -> Trap {
    match k.current {
        Some(current) if asks_to_map(regs) => frame::map_step(
            k,
            current,
            regs.mrs[0],
            regs,
            translated,
        ).settled(),
        _ => trap_step(k, regs),
    }
}

/// Gives up the hart until all that are ready now have run.
fn yield_now(state: &mut KernelState, current: TcbId, frame: &mut TrapFrame)
    requires
        old(state).wf(),
    ensures
        final(state).wf(),
        (Step { kernel: final(state)@, regs: final(frame)@, result: Ok(()) }) == yield_step(
            old(state)@,
            current,
            old(frame)@,
        ),
{
    state.make_ready(current);
    state.block_current(frame);
    abi::reply_success(frame);
}

/// Does what the trap with this frame asks for. Afterwards the frame holds the registers
/// of the thread that runs next, and `KernelState::activation` what address space it
/// needs. On `PagingAction::Translate` the trap is not finished: the caller looks the
/// address up and goes on with `dispatch_translated`.
pub fn dispatch(state: &mut KernelState, frame: &mut TrapFrame) -> (action: PagingAction)
    requires
        old(state).wf(),
    ensures
        final(state).wf(),
        (Trap { kernel: final(state)@, regs: final(frame)@, action }) == trap_step(
            old(state)@,
            old(frame)@,
        ),
        old(state)@.consistent() ==> final(state)@.consistent(),
{
    proof {
        old(frame).lemma_wf();
        if old(state)@.consistent() {
            law_traps_keep_consistency(old(state)@, old(frame)@, None);
        }
    }
    let current = match state.scheduler.current {
        Some(current) => current,
        None => return PagingAction::Done,
    };
    let syscall = match SyscallNumber::from_usize(frame.syscall_number()) {
        Some(syscall) => syscall,
        None => {
            abi::reply_error(frame, SyscallError::IllegalOperation);
            return PagingAction::Done;
        },
    };
    let cptr = frame.mr(0);
    let result = match syscall {
        SyscallNumber::Send => ipc::send(state, current, cptr, frame, false),
        SyscallNumber::NBSend => ipc::send(state, current, cptr, frame, true),
        SyscallNumber::Recv => ipc::recv(state, current, cptr, frame),
        SyscallNumber::Call => ipc::call(state, current, cptr, frame),
        SyscallNumber::Reply => ipc::reply(state, current, frame),
        SyscallNumber::Signal => ipc::signal(state, current, cptr, frame),
        SyscallNumber::Wait => ipc::wait(state, current, cptr, frame),
        SyscallNumber::Poll => ipc::poll(state, current, cptr, frame),
        SyscallNumber::CNodeInvoke => cnode::invoke(state, current, cptr, frame),
        SyscallNumber::UntypedRetype => admin::untyped_retype(state, current, cptr, frame),
        SyscallNumber::TCBConfigure => admin::configure(state, current, cptr, frame),
        SyscallNumber::Yield => {
            yield_now(state, current, frame);
            Ok(())
        },
        SyscallNumber::FrameInvoke => {
            let result = frame::invoke(state, current, cptr, frame);
            return settle(frame, result);
        },
    };
    match result {
        Ok(_) => PagingAction::Done,
        Err(error) => settle(frame, Err(error)),
    }
}

/// Ends a trap: an error goes into the registers.
fn settle(frame: &mut TrapFrame, result: Result<PagingAction, SyscallError>) -> (action:
    PagingAction)
    ensures
        forall|kernel: KernelModel|
            (Trap { kernel, regs: final(frame)@, action }) == #[trigger] (PagedStep {
                kernel,
                regs: old(frame)@,
                result,
            }).settled(),
{
    match result {
        Ok(action) => action,
        Err(error) => {
            abi::reply_error(frame, error);
            PagingAction::Done
        },
    }
}

/// Finishes the trap for which `dispatch` asked for a translation. `translated` is what
/// the page tables have at the address.
pub fn dispatch_translated(
    state: &mut KernelState,
    frame: &mut TrapFrame,
    translated: Option<usize>,
) -> (action: PagingAction)
    requires
        old(state).wf(),
    ensures
        final(state).wf(),
        (Trap { kernel: final(state)@, regs: final(frame)@, action }) == translated_step(
            old(state)@,
            old(frame)@,
            translated,
        ),
        old(state)@.consistent() ==> final(state)@.consistent(),
{
    proof {
        old(frame).lemma_wf();
        if old(state)@.consistent() {
            law_traps_keep_consistency(old(state)@, old(frame)@, translated);
        }
    }
    let current = match state.scheduler.current {
        Some(current) => current,
        None => return PagingAction::Done,
    };
    match SyscallNumber::from_usize(frame.syscall_number()) {
        Some(SyscallNumber::FrameInvoke) => {
            if frame.tag().label == frame::LABEL_MAP {
                let cptr = frame.mr(0);
                let result = frame::map_translated(state, current, cptr, frame, translated);
                return settle(frame, result);
            }
        },
        _ => {},
    }
    dispatch(state, frame)
}

} // verus!
