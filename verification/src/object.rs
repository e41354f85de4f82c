//! The objects that a capability can designate, CNodes apart (see `crate::cap`).

use vstd::arithmetic::div_mod::{
    lemma_fundamental_div_mod, lemma_mod_bound, lemma_mod_multiples_basic, lemma_small_mod,
    lemma_sub_mod_noop,
};
use vstd::arithmetic::mul::{lemma_mul_is_commutative, lemma_mul_is_distributive_add};
use vstd::prelude::*;
use vstd::std_specs::cmp::PartialEqSpecImpl;

use crate::cap::{CNodeId, CPtr, Capability, EndpointId, NotificationId, SchedContextId, TcbId};
use crate::cap::{UntypedId, VSpaceId};
use crate::limits::MAX_TCBS;
use crate::queue::ArrayQueue;
use crate::trap::{MessageTag, Registers, TrapFrame, MR_COUNT, RAW_WORDS};

verus! {

/// Bytes of the smallest page, and of every page table.
pub const PAGE_SIZE: usize = 0x1000;

/// Bytes of a megapage.
pub const MEGAPAGE_SIZE: usize = 0x20_0000;

/// A copy of a thread's register state, kept while another thread's occupies the one
/// hardware frame.
#[derive(Clone, Copy, Debug)]
pub struct SavedContext {
    syscall_number: usize,
    tag: MessageTag,
    mrs: [usize; MR_COUNT],
    raw: [usize; RAW_WORDS],
}

impl View for SavedContext {
    type V = Registers;

    closed spec fn view(&self) -> Registers {
        Registers {
            syscall_number: self.syscall_number,
            tag: self.tag,
            mrs: self.mrs@,
            raw: self.raw@,
        }
    }
}

impl SavedContext {
    /// A saved context always holds `MR_COUNT` message registers and `RAW_WORDS` raw
    /// words.
    pub broadcast proof fn lemma_wf(&self)
        ensures
            (#[trigger] self@).wf(),
    {
    }

    pub fn zeroed() -> (context: Self)
        ensures
            context@ == Registers::zeroed(),
    {
        let context = SavedContext {
            syscall_number: 0,
            tag: MessageTag { label: 0, length: 0, extra_caps: 0, flags: 0 },
            mrs: [0;MR_COUNT],
            raw: [0;RAW_WORDS],
        };
        assert(context@ =~= Registers::zeroed());
        context
    }

    /// Copies the whole register state out of `frame`.
    pub fn save_from(frame: &TrapFrame) -> (context: Self)
        ensures
            context@ == frame@,
    {
        broadcast use TrapFrame::lemma_wf;

        let mut mrs: [usize; MR_COUNT] = [0;MR_COUNT];
        let mut i: usize = 0;
        while i < MR_COUNT
            invariant
                frame@.wf(),
                forall|j: int| 0 <= j < i ==> mrs@[j] == frame@.mrs[j],
            decreases MR_COUNT - i,
        {
            mrs[i] = frame.mr(i);
            i = i + 1;
        }
        let mut raw: [usize; RAW_WORDS] = [0;RAW_WORDS];
        let mut i: usize = 0;
        while i < RAW_WORDS
            invariant
                frame@.wf(),
                forall|j: int| 0 <= j < i ==> raw@[j] == frame@.raw[j],
            decreases RAW_WORDS - i,
        {
            raw[i] = frame.raw_word(i);
            i = i + 1;
        }
        let context = SavedContext {
            syscall_number: frame.syscall_number(),
            tag: frame.tag(),
            mrs,
            raw,
        };
        assert(context@ =~= frame@);
        context
    }

    /// Writes this state into `frame`, so that returning from the trap resumes the
    /// thread that it belongs to. This is the context switch.
    pub fn restore_into(&self, frame: &mut TrapFrame)
        ensures
            final(frame)@ == self@,
    {
        broadcast use TrapFrame::lemma_wf;

        frame.set_syscall_number(self.syscall_number);
        frame.set_tag(self.tag);
        let mut i: usize = 0;
        while i < MR_COUNT
            invariant
                frame@.wf(),
                frame@.syscall_number == self@.syscall_number,
                frame@.tag == self@.tag,
                forall|j: int| 0 <= j < i ==> frame@.mrs[j] == self.mrs@[j],
            decreases MR_COUNT - i,
        {
            frame.set_mr(i, self.mrs[i]);
            i = i + 1;
        }
        assert(frame@.mrs =~= self.mrs@);
        let mut i: usize = 0;
        while i < RAW_WORDS
            invariant
                frame@.wf(),
                frame@.syscall_number == self@.syscall_number,
                frame@.tag == self@.tag,
                frame@.mrs == self@.mrs,
                forall|j: int| 0 <= j < i ==> frame@.raw[j] == self.raw@[j],
            decreases RAW_WORDS - i,
        {
            frame.set_raw_word(i, self.raw[i]);
            i = i + 1;
        }
        assert(frame@ =~= self@);
    }

    pub fn mr(&self, index: usize) -> (value: usize)
        requires
            index < MR_COUNT,
        ensures
            value == self@.mrs[index as int],
    {
        self.mrs[index]
    }

    pub fn set_mr(&mut self, index: usize, value: usize)
        requires
            index < MR_COUNT,
        ensures
            final(self)@ == old(self)@.with_mr(index as int, value),
            final(self)@.mrs == old(self)@.mrs.update(index as int, value),
            final(self)@ == (Registers { mrs: final(self)@.mrs, ..old(self)@ }),
    {
        self.mrs[index] = value;
    }

    pub fn tag(&self) -> (tag: MessageTag)
        ensures
            tag == self@.tag,
    {
        self.tag
    }

    pub fn set_tag(&mut self, tag: MessageTag)
        ensures
            final(self)@ == old(self)@.with_tag(tag),
            final(self)@.tag == tag,
            final(self)@ == (Registers { tag: final(self)@.tag, ..old(self)@ }),
    {
        self.tag = tag;
    }
}

/// A thread's run state. A thread is `Inactive` until it is configured, so that an
/// unconfigured thread is never scheduled.
#[derive(Clone, Copy, Eq, Debug)]
pub enum ThreadState {
    Inactive,
    Ready,
    Running,
    /// Waiting for a receiver. A thread that sends blocks with all that the receiver
    /// will need and that its registers do not hold.
    BlockedSend {
        endpoint: EndpointId,
        /// The badge of the endpoint capability that the thread invoked.
        badge: u64,
        /// A call, whose sender then waits for a reply, as opposed to a send.
        is_call: bool,
        /// The capability that travels with the message.
        extra_cap: Option<Capability>,
        /// Where a capability that comes with the reply shall go.
        reply_dest_slot: Option<CPtr>,
    },
    /// Waiting for a sender.
    BlockedRecv {
        endpoint: EndpointId,
        /// Where a capability that comes with the message shall go.
        dest_slot: Option<CPtr>,
    },
    /// Waiting for the reply to a call.
    BlockedReply {
        /// Where a capability that comes with the reply shall go.
        dest_slot: Option<CPtr>,
    },
    BlockedWait(NotificationId),
}

impl PartialEq for ThreadState {
    fn eq(&self, other: &Self) -> (equal: bool) {
        match (*self, *other) {
            (ThreadState::Inactive, ThreadState::Inactive) => true,
            (ThreadState::Ready, ThreadState::Ready) => true,
            (ThreadState::Running, ThreadState::Running) => true,
            (
                ThreadState::BlockedSend {
                    endpoint: a,
                    badge: m,
                    is_call: f,
                    extra_cap: c,
                    reply_dest_slot: s,
                },
                ThreadState::BlockedSend {
                    endpoint: b,
                    badge: n,
                    is_call: g,
                    extra_cap: d,
                    reply_dest_slot: t,
                },
            ) => a == b && m == n && f == g && c == d && s == t,
            (
                ThreadState::BlockedRecv { endpoint: a, dest_slot: s },
                ThreadState::BlockedRecv { endpoint: b, dest_slot: t },
            ) => a == b && s == t,
            (
                ThreadState::BlockedReply { dest_slot: s },
                ThreadState::BlockedReply { dest_slot: t },
            ) => s == t,
            (ThreadState::BlockedWait(a), ThreadState::BlockedWait(b)) => a == b,
            _ => false,
        }
    }
}

impl PartialEqSpecImpl for ThreadState {
    open spec fn obeys_eq_spec() -> bool {
        true
    }

    open spec fn eq_spec(&self, other: &Self) -> bool {
        *self == *other
    }
}

/// A thread control block.
#[derive(Clone, Copy, Debug)]
pub struct Tcb {
    pub state: ThreadState,
    pub cspace: Option<CNodeId>,
    pub sched_context: Option<SchedContextId>,
    /// The root page table of the thread's address space; `None` for a thread that
    /// runs on whatever is active.
    pub address_space: Option<usize>,
    pub context: SavedContext,
    /// The thread whose call this one has received and not yet answered.
    pub reply_to: Option<TcbId>,
}

#[verifier::ext_equal]
pub struct TcbModel {
    pub state: ThreadState,
    pub cspace: Option<CNodeId>,
    pub sched_context: Option<SchedContextId>,
    pub address_space: Option<usize>,
    pub context: Registers,
    pub reply_to: Option<TcbId>,
}

impl TcbModel {
    /// A thread that was never configured.
    pub open spec fn fresh() -> TcbModel {
        TcbModel {
            state: ThreadState::Inactive,
            cspace: None,
            sched_context: None,
            address_space: None,
            context: Registers::zeroed(),
            reply_to: None,
        }
    }
}

impl View for Tcb {
    type V = TcbModel;

    open spec fn view(&self) -> TcbModel {
        TcbModel {
            state: self.state,
            cspace: self.cspace,
            sched_context: self.sched_context,
            address_space: self.address_space,
            context: self.context@,
            reply_to: self.reply_to,
        }
    }
}

impl Tcb {
    pub fn new() -> (tcb: Self)
        ensures
            tcb@ == TcbModel::fresh(),
    {
        Tcb {
            state: ThreadState::Inactive,
            cspace: None,
            sched_context: None,
            address_space: None,
            context: SavedContext::zeroed(),
            reply_to: None,
        }
    }
}

impl Default for Tcb {
    fn default() -> (tcb: Self)
        ensures
            tcb@ == TcbModel::fresh(),
    {
        Tcb::new()
    }
}

/// The threads blocked on an endpoint: senders or receivers, never both, since a
/// sender and a receiver that meet are paired off at once.
#[derive(Clone, Copy, Debug)]
pub enum EndpointQueue {
    Empty,
    Send(ArrayQueue<TcbId, MAX_TCBS>),
    Recv(ArrayQueue<TcbId, MAX_TCBS>),
}

pub enum EndpointModel {
    Empty,
    Send(Seq<TcbId>),
    Recv(Seq<TcbId>),
}

impl EndpointModel {
    /// A side that nobody is left on is no side.
    pub open spec fn normalized(self) -> EndpointModel {
        match self {
            EndpointModel::Send(q) if q.len() == 0 => EndpointModel::Empty,
            EndpointModel::Recv(q) if q.len() == 0 => EndpointModel::Empty,
            other => other,
        }
    }

    /// Whoever is listed as waiting, on either side.
    pub open spec fn waiting(self) -> Seq<TcbId> {
        match self {
            EndpointModel::Empty => Seq::empty(),
            EndpointModel::Send(q) => q,
            EndpointModel::Recv(q) => q,
        }
    }

    /// A side is only kept while somebody waits on it, and never outgrows the number
    /// of threads.
    pub open spec fn wf(self) -> bool {
        match self {
            EndpointModel::Empty => true,
            EndpointModel::Send(q) => 0 < q.len() <= MAX_TCBS,
            EndpointModel::Recv(q) => 0 < q.len() <= MAX_TCBS,
        }
    }
}

/// Normalizing twice is normalizing once. Where somebody waits it changes nothing, and it
/// never leaves a side that nobody waits on.
pub proof fn law_normalizing_is_idempotent(q: EndpointModel)
    ensures
        q.normalized().normalized() == q.normalized(),
        q.normalized() == if q.waiting().len() > 0 {
            q
        } else {
            EndpointModel::Empty
        },
        q.normalized() is Empty <==> q.waiting().len() == 0,
{
}

impl View for EndpointQueue {
    type V = EndpointModel;

    open spec fn view(&self) -> EndpointModel {
        match self {
            EndpointQueue::Empty => EndpointModel::Empty,
            EndpointQueue::Send(q) => EndpointModel::Send(q@),
            EndpointQueue::Recv(q) => EndpointModel::Recv(q@),
        }
    }
}

impl EndpointQueue {
    /// The ring buffer, if there is one, is in order.
    pub open spec fn ring_wf(&self) -> bool {
        match self {
            EndpointQueue::Empty => true,
            EndpointQueue::Send(q) => q.wf(),
            EndpointQueue::Recv(q) => q.wf(),
        }
    }
}

#[derive(Clone, Copy, Debug)]
pub struct Endpoint {
    pub queue: EndpointQueue,
}

impl View for Endpoint {
    type V = EndpointModel;

    open spec fn view(&self) -> EndpointModel {
        self.queue@
    }
}

impl Endpoint {
    pub open spec fn wf(&self) -> bool {
        &&& self.queue.ring_wf()
        &&& self@.wf()
    }

    pub fn new() -> (endpoint: Self)
        ensures
            endpoint.wf(),
            endpoint@ == EndpointModel::Empty,
    {
        Endpoint { queue: EndpointQueue::Empty }
    }
}

impl Default for Endpoint {
    fn default() -> (endpoint: Self)
        ensures
            endpoint.wf(),
            endpoint@ == EndpointModel::Empty,
    {
        Endpoint::new()
    }
}

/// An asynchronous signal word. Signalling adds bits; waiting and polling take them
/// all.
#[derive(Clone, Copy, Debug)]
pub struct Notification {
    pub signals: u64,
    pub waiters: ArrayQueue<TcbId, MAX_TCBS>,
}

#[verifier::ext_equal]
pub struct NotificationModel {
    pub signals: u64,
    pub waiters: Seq<TcbId>,
}

impl NotificationModel {
    pub open spec fn fresh() -> NotificationModel {
        NotificationModel { signals: 0, waiters: Seq::empty() }
    }
}

impl View for Notification {
    type V = NotificationModel;

    open spec fn view(&self) -> NotificationModel {
        NotificationModel { signals: self.signals, waiters: self.waiters@ }
    }
}

impl Notification {
    pub open spec fn wf(&self) -> bool {
        self.waiters.wf()
    }

    pub fn new() -> (notification: Self)
        ensures
            notification.wf(),
            notification@ == NotificationModel::fresh(),
    {
        Notification { signals: 0, waiters: ArrayQueue::new() }
    }
}

impl Default for Notification {
    fn default() -> (notification: Self)
        ensures
            notification.wf(),
            notification@ == NotificationModel::fresh(),
    {
        Notification::new()
    }
}

/// Physical memory that has not been handed out: from `next` up to, not including,
/// `end`.
#[derive(Clone, Copy, PartialEq, Eq, Structural, Debug)]
pub struct MemoryRange {
    pub next: usize,
    pub end: usize,
}

/// The least multiple of `align` that is not below `address`.
pub open spec fn align_up(address: int, align: int) -> int {
    if address % align == 0 {
        address
    } else {
        address + (align - address % align)
    }
}

/// Untyped memory: the right to make `remaining` more objects, and, optionally, a range
/// of physical memory for those objects that name physical pages.
#[derive(Clone, Copy, PartialEq, Eq, Structural, Debug)]
pub struct Untyped {
    pub remaining: usize,
    pub memory: Option<MemoryRange>,
}

impl Untyped {
    /// A budget without physical memory.
    pub fn new(budget: usize) -> (untyped: Self)
        ensures
            untyped == (Untyped { remaining: budget, memory: None }),
    {
        Untyped { remaining: budget, memory: None }
    }

    /// A budget with the `size` bytes of physical memory that start at `base`.
    pub fn with_memory(budget: usize, base: usize, size: usize) -> (untyped: Self)
        requires
            base + size <= usize::MAX,
        ensures
            untyped == (Untyped {
                remaining: budget,
                memory: Some(MemoryRange { next: base, end: (base + size) as usize }),
            }),
    {
        Untyped { remaining: budget, memory: Some(MemoryRange { next: base, end: base + size }) }
    }

    /// Where the next `size` bytes aligned to `align` start; `None` where the range
    /// does not hold them.
    pub open spec fn bump_start(self, size: usize, align: usize) -> Option<usize> {
        match self.memory {
            Some(range) if align_up(range.next as int, align as int) + size <= range.end => Some(
                align_up(range.next as int, align as int) as usize,
            ),
            _ => None,
        }
    }

    /// What is left after `size` bytes aligned to `align` were taken; everything, where
    /// the range does not hold them.
    pub open spec fn bumped(self, size: usize, align: usize) -> Untyped {
        match (self.memory, self.bump_start(size, align)) {
            (Some(range), Some(start)) => Untyped {
                memory: Some(MemoryRange { next: (start + size) as usize, end: range.end }),
                ..self
            },
            _ => self,
        }
    }

    /// Takes `size` bytes aligned to `align` off the range. What was taken is never
    /// handed out again.
    pub fn bump(&mut self, size: usize, align: usize) -> (start: Option<usize>)
        requires
            align > 0,
        ensures
            start == old(self).bump_start(size, align),
            *final(self) == old(self).bumped(size, align),
    {
        match self.memory {
            Some(range) => {
                let excess: usize = range.next % align;
                let padding: usize = if excess == 0 {
                    0
                } else {
                    align - excess
                };
                match range.next.checked_add(padding) {
                    Some(start) => match start.checked_add(size) {
                        Some(end) => {
                            if end <= range.end {
                                self.memory = Some(MemoryRange { next: end, end: range.end });
                                Some(start)
                            } else {
                                None
                            }
                        },
                        None => None,
                    },
                    None => None,
                }
            },
            None => None,
        }
    }
}

/// A block that `bump` hands out is aligned, and lies inside the range that was left.
pub proof fn law_bump_is_aligned_and_in_range(untyped: Untyped, size: usize, align: usize)
    requires
        align > 0,
    ensures
        untyped.bump_start(size, align) matches Some(start) ==> {
            &&& start % align == 0
            &&& untyped.memory is Some
            &&& untyped.memory->Some_0.next <= start
            &&& start + size <= untyped.memory->Some_0.end
            &&& start - untyped.memory->Some_0.next < align
        },
{
    if let Some(range) = untyped.memory {
        let (n, a) = (range.next as int, align as int);
        assert(align_up(n, a) % a == 0) by {
            lemma_fundamental_div_mod(n, a);
            lemma_mul_is_distributive_add(a, n / a, 1);
            lemma_mul_is_commutative(a, n / a + 1);
            lemma_mod_multiples_basic(n / a + 1, a);
        }
        lemma_mod_bound(n, a);
    }
}

/// `start` is the first multiple of `align` in the memory of `untyped`, and `size` bytes from
/// there on are free.
pub open spec fn fits_first_at(untyped: Untyped, size: usize, align: usize, start: usize) -> bool {
    untyped.memory matches Some(range) && {
        &&& start % align == 0
        &&& range.next <= start < range.next + align
        &&& start + size <= range.end
    }
}

/// A block is taken at the first multiple of the alignment, if it fits there, and everything
/// up to its end is gone; the budget and the end of the range stay. If it does not fit there,
/// nothing is taken.
pub proof fn law_bump_takes_the_first_fit(untyped: Untyped, size: usize, align: usize, start: usize)
    requires
        align > 0,
    ensures
        fits_first_at(untyped, size, align, start) ==> {
            let rest = untyped.bumped(size, align);
            &&& untyped.bump_start(size, align) == Some(start)
            &&& rest.memory matches Some(range) && range.next == start + size && range.end
                == untyped.memory->Some_0.end
            &&& rest.remaining == untyped.remaining
        },
        (forall|at: usize| !fits_first_at(untyped, size, align, at)) ==> untyped.bump_start(
            size,
            align,
        ) is None && untyped.bumped(size, align) == untyped,
{
    law_bump_is_aligned_and_in_range(untyped, size, align);
    if let Some(at) = untyped.bump_start(size, align) {
        assert(fits_first_at(untyped, size, align, at));
    }
    if fits_first_at(untyped, size, align, start) {
        let (x, a) = (start as int, align as int);
        let y = align_up(untyped.memory->Some_0.next as int, a);
        lemma_mod_bound(untyped.memory->Some_0.next as int, a);
        assert(y % a == 0) by {
            let n = untyped.memory->Some_0.next as int;
            lemma_fundamental_div_mod(n, a);
            lemma_mul_is_distributive_add(a, n / a, 1);
            lemma_mul_is_commutative(a, n / a + 1);
            lemma_mod_multiples_basic(n / a + 1, a);
        }
        if x < y {
            lemma_sub_mod_noop(y, x, a);
            lemma_small_mod((y - x) as nat, a as nat);
            lemma_small_mod(0, a as nat);
        } else {
            lemma_sub_mod_noop(x, y, a);
            lemma_small_mod((x - y) as nat, a as nat);
            lemma_small_mod(0, a as nat);
        }
        assert(x == y);
    }
}

/// Two blocks that come off the same untyped memory, one after the other and with any
/// number of others in between, do not overlap.
pub proof fn law_bumps_never_overlap(
    before: Untyped,
    size: usize,
    align: usize,
    later: Untyped,
    later_size: usize,
    later_align: usize,
)
    requires
        align > 0,
        later_align > 0,
        before.bump_start(size, align) is Some,
        later.memory is Some,
        before.bumped(size, align).memory->Some_0.next <= later.memory->Some_0.next,
        later.bump_start(later_size, later_align) is Some,
    ensures
        before.bump_start(size, align)->Some_0 + size <= later.bump_start(
            later_size,
            later_align,
        )->Some_0,
        later.bumped(later_size, later_align).memory->Some_0.next
            >= later.memory->Some_0.next,
{
    law_bump_is_aligned_and_in_range(before, size, align);
    law_bump_is_aligned_and_in_range(later, later_size, later_align);
}

/// A scheduling context. Its budget is its period, which makes scheduling plain
/// round-robin.
#[derive(Clone, Copy, PartialEq, Eq, Structural, Debug)]
pub struct SchedulingContext {
    pub budget: u64,
    pub period: u64,
}

impl SchedulingContext {
    pub fn new(budget_eq_period: u64) -> (context: Self)
        ensures
            context == (SchedulingContext { budget: budget_eq_period, period: budget_eq_period }),
    {
        SchedulingContext { budget: budget_eq_period, period: budget_eq_period }
    }
}

/// An address space.
#[derive(Clone, Copy, PartialEq, Eq, Structural, Debug)]
pub struct VSpace {
    /// Physical address of the root page table.
    pub root: usize,
    /// The untyped memory that the root came from, and that further page tables come
    /// from.
    pub source: UntypedId,
}

#[derive(Clone, Copy, PartialEq, Eq, Structural, Debug)]
pub enum FrameSize {
    Small,
    Mega,
}

impl FrameSize {
    pub open spec fn spec_bytes(self) -> usize {
        match self {
            FrameSize::Small => PAGE_SIZE,
            FrameSize::Mega => MEGAPAGE_SIZE,
        }
    }

    #[verifier::when_used_as_spec(spec_bytes)]
    pub fn bytes(self) -> (bytes: usize)
        ensures
            bytes == self.spec_bytes(),
    {
        match self {
            FrameSize::Small => PAGE_SIZE,
            FrameSize::Mega => MEGAPAGE_SIZE,
        }
    }
}

/// A page of physical memory. It can be mapped into two address spaces at once, which
/// then share it: once into each, at an address of its own.
#[derive(Clone, Copy, Debug)]
pub struct Frame {
    pub paddr: usize,
    pub size: FrameSize,
    /// An address space that the frame is mapped into, and the address there.
    pub mapped_at: Option<(VSpaceId, usize)>,
    /// The other one. Either record can be the one that is free.
    pub also_mapped_at: Option<(VSpaceId, usize)>,
}

/// The address of a mapping into `vspace`.
pub open spec fn address_in(record: Option<(VSpaceId, usize)>, vspace: VSpaceId) -> Option<usize> {
    match record {
        Some((id, vaddr)) if id == vspace => Some(vaddr),
        _ => None,
    }
}

impl Frame {
    /// A frame that is mapped nowhere.
    pub open spec fn spec_new(paddr: usize, size: FrameSize) -> Frame {
        Frame { paddr, size, mapped_at: None, also_mapped_at: None }
    }

    #[verifier::when_used_as_spec(spec_new)]
    pub fn new(paddr: usize, size: FrameSize) -> (frame: Self)
        ensures
            frame == Frame::spec_new(paddr, size),
    {
        Frame { paddr, size, mapped_at: None, also_mapped_at: None }
    }

    pub open spec fn spec_mapping_in(self, vspace: VSpaceId) -> Option<usize> {
        if address_in(self.mapped_at, vspace) is Some {
            address_in(self.mapped_at, vspace)
        } else {
            address_in(self.also_mapped_at, vspace)
        }
    }

    /// The address at which the frame is mapped into `vspace`.
    #[verifier::when_used_as_spec(spec_mapping_in)]
    pub fn mapping_in(self, vspace: VSpaceId) -> (vaddr: Option<usize>)
        ensures
            vaddr == self.spec_mapping_in(vspace),
    {
        if let Some((id, vaddr)) = self.mapped_at {
            if id == vspace {
                return Some(vaddr);
            }
        }
        if let Some((id, vaddr)) = self.also_mapped_at {
            if id == vspace {
                return Some(vaddr);
            }
        }
        None
    }

    pub open spec fn spec_is_shared(self) -> bool {
        self.mapped_at is Some && self.also_mapped_at is Some
    }

    /// Whether the frame is mapped twice, and so cannot be mapped once more.
    #[verifier::when_used_as_spec(spec_is_shared)]
    pub fn is_shared(self) -> (shared: bool)
        ensures
            shared == self.spec_is_shared(),
    {
        self.mapped_at.is_some() && self.also_mapped_at.is_some()
    }

    /// This frame with a mapping more, in a record that is free.
    pub open spec fn with_mapping(self, vspace: VSpaceId, vaddr: usize) -> Frame {
        if self.mapped_at is None {
            Frame { mapped_at: Some((vspace, vaddr)), ..self }
        } else if self.also_mapped_at is None {
            Frame { also_mapped_at: Some((vspace, vaddr)), ..self }
        } else {
            self
        }
    }

    /// Notes a mapping; a frame that is mapped twice stays as it is.
    pub fn note_mapping(&mut self, vspace: VSpaceId, vaddr: usize)
        ensures
            *final(self) == old(self).with_mapping(vspace, vaddr),
    {
        if self.mapped_at.is_none() {
            self.mapped_at = Some((vspace, vaddr));
        } else if self.also_mapped_at.is_none() {
            self.also_mapped_at = Some((vspace, vaddr));
        }
    }

    /// This frame without its mapping into `vspace`.
    pub open spec fn without_mapping(self, vspace: VSpaceId) -> Frame {
        if address_in(self.mapped_at, vspace) is Some {
            Frame { mapped_at: None, ..self }
        } else if address_in(self.also_mapped_at, vspace) is Some {
            Frame { also_mapped_at: None, ..self }
        } else {
            self
        }
    }

    /// Forgets the mapping into `vspace`, and no other.
    pub fn forget_mapping(&mut self, vspace: VSpaceId)
        ensures
            *final(self) == old(self).without_mapping(vspace),
    {
        if let Some((id, _)) = self.mapped_at {
            if id == vspace {
                self.mapped_at = None;
                return;
            }
        }
        if let Some((id, _)) = self.also_mapped_at {
            if id == vspace {
                self.also_mapped_at = None;
            }
        }
    }
}

/// A frame keeps two records. A mapping goes into the first that is free, and nowhere where
/// none is; it is found in whichever record it is; and it is taken out of that record and of
/// no other.
pub proof fn law_a_frame_keeps_two_records(frame: Frame, vspace: VSpaceId, vaddr: usize)
    ensures
        frame.is_shared() <==> !(frame.mapped_at is None) && !(frame.also_mapped_at is None),
        ({
            let noted = frame.with_mapping(vspace, vaddr);
            &&& noted.paddr == frame.paddr && noted.size == frame.size
            &&& noted.mapped_at == if frame.mapped_at is None {
                Some((vspace, vaddr))
            } else {
                frame.mapped_at
            }
            &&& noted.also_mapped_at == if frame.mapped_at is Some && frame.also_mapped_at is None {
                Some((vspace, vaddr))
            } else {
                frame.also_mapped_at
            }
        }),
        frame.mapped_at == Some((vspace, vaddr)) ==> {
            &&& frame.mapping_in(vspace) == Some(vaddr)
            &&& frame.without_mapping(vspace) == (Frame { mapped_at: None, ..frame })
        },
        frame.also_mapped_at == Some((vspace, vaddr)) && (frame.mapped_at matches Some((id, _))
            ==> id != vspace) ==> {
            &&& frame.mapping_in(vspace) == Some(vaddr)
            &&& frame.without_mapping(vspace) == (Frame { also_mapped_at: None, ..frame })
        },
        (frame.mapped_at matches Some((id, _)) ==> id != vspace) && (
        frame.also_mapped_at matches Some((id, _)) ==> id != vspace) ==> {
            &&& frame.mapping_in(vspace) is None
            &&& frame.without_mapping(vspace) == frame
        },
{
}

} // verus!
