//! Whose turn it is: what a trap leaves running, and what yielding, signalling, waiting and
//! polling bring about.

use vstd::prelude::*;

use crate::admin::{configure_step, retype_step};
use crate::cap::{CPtr, NotificationId, Rights, TcbId};
use crate::cnode;
use crate::consistency::{law_there_is_always_room, lemma_current, lemma_first, Place};
use crate::frame;
use crate::ipc::{
    call_step, endpoint_named, notification_named, outgoing, poll_step, recv_step, reply_step,
    send_step, signal_step, wait_step,
};
use crate::limits::MAX_TCBS;
use crate::model::{KernelModel, Step};
use crate::object::{EndpointModel, NotificationModel, TcbModel, ThreadState};
use crate::pool::law_first_free_exists;
use crate::syscall::{
    law_syscall_numbers, translated_step, trap_step, yield_step, SyscallNumber, Trap,
};
use crate::terms::{
    active_under, gives_way, lemma_asked, permits, reads, without_error, READ_BIT, WRITE_BIT,
};
use crate::trap::Registers;

verus! {

/// Somebody runs. If it is another thread than `current`, which trapped with `regs`, then its
/// own address space is active, if it has one, and what was active stays so, if it has none;
/// the hart holds its registers, and those of `current` are put away.
pub open spec fn runs_in_its_own_space(
    k: KernelModel,
    trap: Trap,
    current: TcbId,
    regs: Registers,
) -> bool {
    let after = trap.kernel;
    after.current matches Some(next) && {
        &&& after.has_thread(next) && after.has_thread(current)
        &&& after.thread(next).state is Running
        &&& next != current ==> {
            &&& after.activation == match after.thread(next).address_space {
                Some(root) => Some(root),
                None => k.activation,
            }
            &&& trap.regs.raw == after.thread(next).context.raw
            &&& trap.regs.syscall_number == after.thread(next).context.syscall_number
            &&& trap.regs.mrs == after.thread(next).context.mrs
            &&& regs.syscall_number != 12 ==> trap.regs.tag == after.thread(next).context.tag
            &&& regs.syscall_number == 12 ==> trap.regs.tag == without_error(
                after.thread(next).context.tag,
            )
            &&& after.thread(current).context == regs
            &&& !(after.thread(current).state is Running)
        }
        &&& next == current && regs.syscall_number != 12 ==> after.activation == k.activation
        &&& next == current ==> trap.regs.raw == regs.raw
    }
}

/// A thread always runs in its own address space. Whenever a trap leaves another thread
/// running than the one that trapped, by a block, a call, a reply or a yield, and that thread
/// has an address space, the activation left behind is that one; the hart holds the
/// registers of that thread, and those of the one that trapped are put away. A trap that
/// leaves the same thread running leaves the activation alone.
pub proof fn law_whoever_runs_is_in_its_own_space(
    k: KernelModel,
    current: TcbId,
    regs: Registers,
    translated: Option<usize>,
)
    requires
        k.consistent(),
        k.current == Some(current),
        regs.wf(),
    ensures
        runs_in_its_own_space(k, trap_step(k, regs), current, regs),
        runs_in_its_own_space(k, translated_step(k, regs, translated), current, regs),
{
    let cptr = regs.mrs[0];
    lemma_current(k, current);
    if let Some(syscall) = SyscallNumber::from_usize(regs.syscall_number) {
        law_syscall_numbers(syscall, regs.syscall_number);
        match syscall {
            SyscallNumber::Send => lemma_send(k, current, cptr, regs, false),
            SyscallNumber::NBSend => lemma_send(k, current, cptr, regs, true),
            SyscallNumber::Recv => lemma_recv(k, current, cptr, regs),
            SyscallNumber::Call => lemma_call(k, current, cptr, regs),
            SyscallNumber::Reply => lemma_reply(k, current, regs),
            SyscallNumber::Signal => lemma_signal(k, current, cptr, regs),
            SyscallNumber::Yield => lemma_yield(k, current, regs),
            _ => lemma_others(k, current, cptr, regs),
        }
    }
    lemma_paging(k, current, cptr, regs, translated);
}

proof fn lemma_send(k: KernelModel, current: TcbId, cptr: CPtr, regs: Registers, nonblocking: bool)
    requires
        k.consistent(),
        k.current == Some(current),
        regs.syscall_number != 12,
    ensures
        runs_in_its_own_space(
            k,
            send_step(k, current, cptr, regs, nonblocking).unpaged().settled(),
            current,
            regs,
        ),
{
    lemma_current(k, current);
    if k.ready.len() > 0 {
        lemma_first(k, Place::Ready);
    }
    if let Ok((id, _)) = outgoing(k, current, cptr, regs, 1) {
        if let Some(EndpointModel::Recv(waiters)) = k.endpoint(id) {
            assert(k.listed(Place::Receiving(id)) == waiters);
            lemma_first(k, Place::Receiving(id));
        }
    }
}

proof fn lemma_call(k: KernelModel, current: TcbId, cptr: CPtr, regs: Registers)
    requires
        k.consistent(),
        k.current == Some(current),
        regs.syscall_number != 12,
    ensures
        runs_in_its_own_space(
            k,
            call_step(k, current, cptr, regs).unpaged().settled(),
            current,
            regs,
        ),
{
    lemma_current(k, current);
    if k.ready.len() > 0 {
        lemma_first(k, Place::Ready);
    }
    if let Ok((id, _)) = outgoing(k, current, cptr, regs, 2) {
        if let Some(EndpointModel::Recv(waiters)) = k.endpoint(id) {
            assert(k.listed(Place::Receiving(id)) == waiters);
            lemma_first(k, Place::Receiving(id));
        }
    }
}

proof fn lemma_recv(k: KernelModel, current: TcbId, cptr: CPtr, regs: Registers)
    requires
        k.consistent(),
        k.current == Some(current),
        regs.syscall_number != 12,
    ensures
        runs_in_its_own_space(
            k,
            recv_step(k, current, cptr, regs).unpaged().settled(),
            current,
            regs,
        ),
{
    lemma_current(k, current);
    if k.ready.len() > 0 {
        lemma_first(k, Place::Ready);
    }
    if let Ok((id, _)) = endpoint_named(k, current, cptr, Rights::read()) {
        if let Some(EndpointModel::Send(waiters)) = k.endpoint(id) {
            assert(k.listed(Place::Sending(id)) == waiters);
            lemma_first(k, Place::Sending(id));
        }
    }
}

proof fn lemma_reply(k: KernelModel, current: TcbId, regs: Registers)
    requires
        k.consistent(),
        k.current == Some(current),
        regs.syscall_number != 12,
    ensures
        runs_in_its_own_space(k, reply_step(k, current, regs).unpaged().settled(), current, regs),
{
    lemma_current(k, current);
    if let Some(target) = k.reply_target(current) {
        assert(k.awaits_reply(target));
    }
}

proof fn lemma_signal(k: KernelModel, current: TcbId, cptr: CPtr, regs: Registers)
    requires
        k.consistent(),
        k.current == Some(current),
        regs.syscall_number != 12,
    ensures
        runs_in_its_own_space(
            k,
            signal_step(k, current, cptr, regs).unpaged().settled(),
            current,
            regs,
        ),
{
    lemma_current(k, current);
    if let Ok((id, _)) = notification_named(k, current, cptr, Rights::write()) {
        if let Some(n) = k.notification(id) {
            if n.waiters.len() > 0 {
                assert(k.listed(Place::Waiting(id)) == n.waiters);
                lemma_first(k, Place::Waiting(id));
            }
        }
    }
}

proof fn lemma_yield(k: KernelModel, current: TcbId, regs: Registers)
    requires
        k.consistent(),
        k.current == Some(current),
        regs.syscall_number == 12,
    ensures
        runs_in_its_own_space(k, yield_step(k, current, regs).unpaged().settled(), current, regs),
{
    lemma_current(k, current);
    law_there_is_always_room(k, Place::Ready, current);
    if k.ready.len() > 0 {
        lemma_first(k, Place::Ready);
    }
}

proof fn lemma_others(k: KernelModel, current: TcbId, cptr: CPtr, regs: Registers)
    requires
        k.consistent(),
        k.current == Some(current),
        regs.syscall_number != 12,
    ensures
        runs_in_its_own_space(
            k,
            wait_step(k, current, cptr, regs).unpaged().settled(),
            current,
            regs,
        ),
        runs_in_its_own_space(
            k,
            poll_step(k, current, cptr, regs).unpaged().settled(),
            current,
            regs,
        ),
        runs_in_its_own_space(
            k,
            cnode::invoke_step(k, current, cptr, regs).unpaged().settled(),
            current,
            regs,
        ),
        runs_in_its_own_space(
            k,
            configure_step(k, current, cptr, regs).unpaged().settled(),
            current,
            regs,
        ),
        runs_in_its_own_space(
            k,
            retype_step(k, current, cptr, regs).unpaged().settled(),
            current,
            regs,
        ),
{
    lemma_current(k, current);
    if k.ready.len() > 0 {
        lemma_first(k, Place::Ready);
    }
    law_first_free_exists(k.tcbs);
    assert(cnode::invoke_step(k, current, cptr, regs).kernel.tcbs == k.tcbs);
    assert(poll_step(k, current, cptr, regs).kernel.tcbs == k.tcbs);
}

proof fn lemma_paging(
    k: KernelModel,
    current: TcbId,
    cptr: CPtr,
    regs: Registers,
    translated: Option<usize>,
)
    requires
        k.consistent(),
        k.current == Some(current),
    ensures
        runs_in_its_own_space(
            k,
            frame::invoke_step(k, current, cptr, regs).settled(),
            current,
            regs,
        ),
        runs_in_its_own_space(
            k,
            frame::map_step(k, current, cptr, regs, translated).settled(),
            current,
            regs,
        ),
{
    lemma_current(k, current);
    assert(frame::invoke_step(k, current, cptr, regs).kernel.tcbs == k.tcbs);
    assert(frame::map_step(k, current, cptr, regs, translated).kernel.tcbs == k.tcbs);
}

/// A thread that yields goes to the end of the ready queue, and the first of the queue runs,
/// with its own registers and in its own address space; a thread that is alone goes on.
/// Whoever runs has its error bit cleared.
pub proof fn law_yielding_takes_turns(k: KernelModel, current: TcbId, regs: Registers)
    requires
        k.consistent(),
        k.current == Some(current),
        regs.wf(),
        regs.syscall_number == 12,
    ensures
        ({
            let trap = trap_step(k, regs);
            let after = trap.kernel;
            let next = k.ready.push(current)[0];
            &&& trap.action is Done
            &&& after.current == Some(next)
            &&& after.ready == k.ready.push(current).skip(1)
            &&& after.activation == active_under(k, next)
            &&& after.has_thread(next) && after.has_thread(current)
            &&& after.thread(current) == (TcbModel {
                state: if next == current {
                    ThreadState::Running
                } else {
                    ThreadState::Ready
                },
                context: regs,
                ..k.thread(current)
            })
            &&& next != current ==> after.thread(next) == (TcbModel {
                state: ThreadState::Running,
                ..k.thread(next)
            })
            &&& reads(
                after.thread(next).context,
                trap.regs,
                after.thread(next).context.mrs,
                without_error(after.thread(next).context.tag),
            )
            &&& k.keeps_threads(after, current, next)
            &&& after == (KernelModel {
                tcbs: after.tcbs,
                ready: after.ready,
                current: after.current,
                activation: after.activation,
                ..k
            })
        }),
{
    lemma_current(k, current);
    law_there_is_always_room(k, Place::Ready, current);
    if k.ready.len() > 0 {
        lemma_first(k, Place::Ready);
    }
    lemma_asked(k, current, SyscallNumber::Yield, regs);
}

/// The code of the error for which a notification cannot be invoked with these registers, if
/// any: `mr0` names no slot, or no notification, or one without the right that `right` stands
/// for, or the notification does not exist.
pub open spec fn notification_objection(
    k: KernelModel,
    current: TcbId,
    regs: Registers,
    right: u8,
) -> Option<usize> {
    let cap = k.seen(current, regs.mrs[0]);
    if !k.sees(current, regs.mrs[0]) {
        Some(6)
    } else if !(cap is Notification) {
        Some(1)
    } else if !permits(cap, right) {
        Some(3)
    } else {
        let id = cap->Notification_id;
        if id.0 >= k.notifications.len() || k.notifications[id.0 as int] is None {
            Some(1)
        } else {
            None
        }
    }
}

/// Whether `mr0` names the notification `id` with the badge `badge`, the right that `right`
/// stands for, and in this condition.
pub open spec fn names_notification(
    k: KernelModel,
    current: TcbId,
    regs: Registers,
    right: u8,
    id: NotificationId,
    badge: u64,
    n: NotificationModel,
) -> bool {
    let cap = k.seen(current, regs.mrs[0]);
    &&& notification_objection(k, current, regs, right) is None
    &&& cap->Notification_id == id && cap->Notification_badge == badge
    &&& k.notifications[id.0 as int] == Some(n)
}

/// The invocation of a notification is refused, and nothing changes, for a reason that can
/// be seen.
pub proof fn law_bad_signals_are_refused(k: KernelModel, current: TcbId, regs: Registers, code: usize)
    requires
        k.current == Some(current),
    ensures
        regs.syscall_number == 6 && notification_objection(k, current, regs, WRITE_BIT) == Some(
            code,
        ) ==> trap_step(k, regs).refuses(k, regs, code),
        (regs.syscall_number == 7 || regs.syscall_number == 8) && notification_objection(
            k,
            current,
            regs,
            READ_BIT,
        ) == Some(code) ==> trap_step(k, regs).refuses(k, regs, code),
{
    broadcast use Rights::lemma_of;

    if regs.syscall_number == 6 {
        lemma_asked(k, current, SyscallNumber::Signal, regs);
    } else if regs.syscall_number == 7 {
        lemma_asked(k, current, SyscallNumber::Wait, regs);
    } else if regs.syscall_number == 8 {
        lemma_asked(k, current, SyscallNumber::Poll, regs);
    }
}

/// A signal sets the bits of its badge, beside those that were pending. Where nobody waits
/// they stay pending. Otherwise the first that waits finds them all in `mr0` and is ready,
/// and none stays pending. The thread that signals goes on.
pub proof fn law_a_signal_sets_the_bits_of_its_badge(
    k: KernelModel,
    current: TcbId,
    regs: Registers,
    id: NotificationId,
    badge: u64,
    n: NotificationModel,
)
    requires
        k.consistent(),
        k.current == Some(current),
        regs.wf(),
        regs.syscall_number == 6,
        names_notification(k, current, regs, WRITE_BIT, id, badge, n),
    ensures
        ({
            let trap = trap_step(k, regs);
            let after = trap.kernel;
            let woken = n.waiters[0];
            &&& trap.reports_success(regs)
            &&& n.waiters.len() == 0 ==> after == (KernelModel {
                notifications: k.notifications.update(
                    id.0 as int,
                    Some(NotificationModel { signals: n.signals | badge, waiters: n.waiters }),
                ),
                ..k
            })
            &&& n.waiters.len() > 0 ==> {
                &&& k.has_thread(woken) && after.has_thread(woken) && woken != current
                &&& after.notifications == k.notifications.update(
                    id.0 as int,
                    Some(NotificationModel { signals: 0, waiters: n.waiters.skip(1) }),
                )
                &&& reads(
                    k.thread(woken).context,
                    after.thread(woken).context,
                    k.thread(woken).context.mrs.update(0, (n.signals | badge) as usize),
                    k.thread(woken).context.tag,
                )
                &&& after.thread(woken) == (TcbModel {
                    state: ThreadState::Ready,
                    context: after.thread(woken).context,
                    ..k.thread(woken)
                })
                &&& k.keeps_threads(after, woken, woken)
                &&& after.ready == k.ready.push(woken)
                &&& after == (KernelModel {
                    tcbs: after.tcbs,
                    notifications: after.notifications,
                    ready: after.ready,
                    ..k
                })
            }
        }),
{
    broadcast use Rights::lemma_of;

    lemma_current(k, current);
    if n.waiters.len() > 0 {
        assert(k.listed(Place::Waiting(id)) == n.waiters);
        lemma_first(k, Place::Waiting(id));
        law_there_is_always_room(k, Place::Ready, n.waiters[0]);
    }
    lemma_asked(k, current, SyscallNumber::Signal, regs);
}

/// A poll, and a wait where bits are pending, take all bits that are pending: the thread
/// finds them in `mr0` and goes on, and none stays pending. A wait with none pending needs
/// somebody else to run; then the thread joins the end of the line, and the first that is
/// ready runs.
pub proof fn law_pending_bits_are_taken(
    k: KernelModel,
    current: TcbId,
    regs: Registers,
    id: NotificationId,
    badge: u64,
    n: NotificationModel,
)
    requires
        k.consistent(),
        k.current == Some(current),
        regs.wf(),
        regs.syscall_number == 7 || regs.syscall_number == 8,
        names_notification(k, current, regs, READ_BIT, id, badge, n),
    ensures
        ({
            let trap = trap_step(k, regs);
            let after = trap.kernel;
            &&& regs.syscall_number == 8 || n.signals != 0 ==> {
                &&& trap.action is Done
                &&& reads(
                    regs,
                    trap.regs,
                    regs.mrs.update(0, n.signals as usize),
                    without_error(regs.tag),
                )
                &&& after == (KernelModel {
                    notifications: k.notifications.update(
                        id.0 as int,
                        Some(NotificationModel { signals: 0, waiters: n.waiters }),
                    ),
                    ..k
                })
            }
            &&& regs.syscall_number == 7 && n.signals == 0 && k.ready.len() == 0 ==> trap.refuses(
                k,
                regs,
                9,
            )
            &&& regs.syscall_number == 7 && n.signals == 0 && k.ready.len() > 0 ==> {
                &&& gives_way(k, trap, current, regs, ThreadState::BlockedWait(id))
                &&& after == (KernelModel {
                    tcbs: after.tcbs,
                    notifications: k.notifications.update(
                        id.0 as int,
                        Some(
                            NotificationModel { signals: 0, waiters: n.waiters.push(current) },
                        ),
                    ),
                    ready: after.ready,
                    current: after.current,
                    activation: after.activation,
                    ..k
                })
            }
        }),
{
    broadcast use Rights::lemma_of;

    lemma_current(k, current);
    if k.ready.len() > 0 {
        lemma_first(k, Place::Ready);
    }
    assert(k.listed(Place::Waiting(id)) == n.waiters);
    law_there_is_always_room(k, Place::Waiting(id), current);
    if regs.syscall_number == 7 {
        lemma_asked(k, current, SyscallNumber::Wait, regs);
    } else {
        lemma_asked(k, current, SyscallNumber::Poll, regs);
    }
}

/// The first thread that a hart runs has the registers that were put away for it and its own
/// address space, and says that it runs; nothing else changes.
pub proof fn law_the_first_thread_is_entered(k: KernelModel, regs: Registers, next: TcbId)
    requires
        k.has_thread(next),
    ensures
        ({
            let after = k.resumed(next);
            &&& after.has_thread(next)
            &&& after.thread(next) == (TcbModel { state: ThreadState::Running, ..k.thread(next) })
            &&& k.keeps_threads(after, next, next)
            &&& k.registers_of(next, regs) == k.thread(next).context
            &&& after == (KernelModel {
                tcbs: after.tcbs,
                current: Some(next),
                activation: active_under(k, next),
                ..k
            })
        }),
{
}

/// Handing the hart to a thread makes it the one that runs, with the registers that were put
/// away for it and in its own address space; the registers of whoever ran before are put
/// away, and nothing else changes. Taking the next that is ready is the same, with the first
/// of the ready queue, which leaves it.
pub proof fn law_the_hart_is_handed_over(k: KernelModel, regs: Registers, next: TcbId, current: TcbId)
    requires
        k.current == Some(current),
        k.has_thread(next),
        k.has_thread(current),
        next != current,
    ensures
        ({
            let step = k.switched(regs, next);
            &&& step.result is Ok
            &&& is_handed_over(k, step, regs, next, current)
            &&& step.kernel.ready == k.ready
        }),
        k.ready.len() > 0 && k.ready[0] == next ==> {
            let step = k.yielded(regs);
            &&& step.result is Ok
            &&& is_handed_over(k, step, regs, next, current)
            &&& step.kernel.ready == k.ready.skip(1)
        },
{
}

/// `next` runs in the place of `current`; the ready queue aside, nothing else has changed.
pub open spec fn is_handed_over(
    k: KernelModel,
    step: Step,
    regs: Registers,
    next: TcbId,
    current: TcbId,
) -> bool {
    let after = step.kernel;
    &&& step.regs == k.thread(next).context
    &&& after.has_thread(next) && after.has_thread(current)
    &&& after.thread(next) == (TcbModel { state: ThreadState::Running, ..k.thread(next) })
    &&& after.thread(current) == (TcbModel { context: regs, ..k.thread(current) })
    &&& k.keeps_threads(after, next, current)
    &&& after == (KernelModel {
        tcbs: after.tcbs,
        ready: after.ready,
        current: Some(next),
        activation: active_under(k, next),
        ..k
    })
}

/// A thread that is made ready says so and joins the end of the ready queue, if that has
/// room; nothing else changes.
pub proof fn law_a_thread_that_is_ready_waits_for_the_hart(k: KernelModel, id: TcbId)
    requires
        k.has_thread(id),
    ensures
        ({
            let after = k.made_ready(id);
            &&& after.has_thread(id)
            &&& after.thread(id) == (TcbModel { state: ThreadState::Ready, ..k.thread(id) })
            &&& k.keeps_threads(after, id, id)
            &&& after == (KernelModel {
                tcbs: after.tcbs,
                ready: if k.ready.len() < MAX_TCBS {
                    k.ready.push(id)
                } else {
                    k.ready
                },
                ..k
            })
        }),
{
}

/// A notification on which as many wait as there can be threads takes nobody else.
pub proof fn law_a_full_line_of_waiters_takes_nobody(
    k: KernelModel,
    current: TcbId,
    regs: Registers,
    id: NotificationId,
    badge: u64,
    n: NotificationModel,
)
    requires
        k.current == Some(current),
        regs.syscall_number == 7,
        names_notification(k, current, regs, READ_BIT, id, badge, n),
        n.signals == 0,
        n.waiters.len() >= MAX_TCBS,
        k.ready.len() > 0,
    ensures
        trap_step(k, regs).refuses(k, regs, 8),
{
    broadcast use Rights::lemma_of;

    lemma_asked(k, current, SyscallNumber::Wait, regs);
}

} // verus!
