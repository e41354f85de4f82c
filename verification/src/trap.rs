//! What the hardware layer hands over on a trap: the message tag and the register
//! state of the thread that trapped, as plain values.

use vstd::prelude::*;

verus! {

/// Message registers, `mr0` to `mr3`.
pub const MR_COUNT: usize = 4;

/// Words of architecture-specific register state.
pub const RAW_WORDS: usize = 32;

/// The bit of `MessageTag::flags` that marks an error reply.
pub const FLAG_ERROR: u8 = 1;

/// Describes the message that the message registers carry.
#[derive(Clone, Copy, PartialEq, Eq, Structural, Debug)]
pub struct MessageTag {
    pub label: u32,
    /// Message words beyond the registers.
    pub length: u16,
    pub extra_caps: u8,
    pub flags: u8,
}

impl MessageTag {
    pub open spec fn spec_zeroed() -> MessageTag {
        MessageTag { label: 0, length: 0, extra_caps: 0, flags: 0 }
    }

    pub open spec fn spec_is_error(self) -> bool {
        self.flags & FLAG_ERROR != 0
    }

    #[verifier::when_used_as_spec(spec_is_error)]
    pub fn is_error(self) -> (error: bool)
        ensures
            error == self.spec_is_error(),
    {
        self.flags & FLAG_ERROR != 0
    }

    /// This tag with the error bit cleared.
    pub open spec fn cleared(self) -> MessageTag {
        MessageTag { flags: self.flags & !FLAG_ERROR, ..self }
    }

    /// This tag with the error bit set.
    pub open spec fn marked(self) -> MessageTag {
        MessageTag { flags: self.flags | FLAG_ERROR, ..self }
    }
}

/// Clearing and marking touch the error bit only, and leave it clear or set.
pub proof fn law_error_bit(tag: MessageTag)
    ensures
        !tag.cleared().is_error(),
        tag.marked().is_error(),
        !tag.is_error() ==> tag.cleared() == tag,
        tag.marked().cleared() == tag.cleared(),
        tag.cleared().cleared() == tag.cleared(),
        tag.is_error() <==> tag.flags % 2 == 1,
{
    let f = tag.flags;
    assert((f & !1u8) & 1u8 == 0u8) by (bit_vector);
    assert((f | 1u8) & 1u8 != 0u8) by (bit_vector);
    assert(f & 1u8 == 0u8 ==> f & !1u8 == f) by (bit_vector);
    assert((f | 1u8) & !1u8 == f & !1u8) by (bit_vector);
    assert((f & !1u8) & !1u8 == f & !1u8) by (bit_vector);
    assert(f & 1u8 != 0u8 <==> f % 2u8 == 1u8) by (bit_vector);
}

/// The whole register state of a thread.
#[verifier::ext_equal]
pub struct Registers {
    pub syscall_number: usize,
    pub tag: MessageTag,
    pub mrs: Seq<usize>,
    pub raw: Seq<usize>,
}

impl Registers {
    pub open spec fn zeroed() -> Registers {
        Registers {
            syscall_number: 0,
            tag: MessageTag::spec_zeroed(),
            mrs: Seq::new(MR_COUNT as nat, |i: int| 0usize),
            raw: Seq::new(RAW_WORDS as nat, |i: int| 0usize),
        }
    }

    pub open spec fn wf(self) -> bool {
        &&& self.mrs.len() == MR_COUNT
        &&& self.raw.len() == RAW_WORDS
    }

    pub open spec fn with_mr(self, index: int, value: usize) -> Registers {
        Registers { mrs: self.mrs.update(index, value), ..self }
    }

    pub open spec fn with_tag(self, tag: MessageTag) -> Registers {
        Registers { tag, ..self }
    }

    /// These registers with the four message registers replaced.
    pub open spec fn with_mrs(self, mr0: usize, mr1: usize, mr2: usize, mr3: usize) -> Registers {
        Registers { mrs: seq![mr0, mr1, mr2, mr3], ..self }
    }

    /// What a thread finds after a syscall that succeeded and wrote no message.
    pub open spec fn succeeded(self) -> Registers {
        self.with_tag(self.tag.cleared())
    }

    /// What a thread finds after a syscall that failed with the error code `code`.
    pub open spec fn failed(self, code: usize) -> Registers {
        self.with_mr(0, code).with_tag(self.tag.marked())
    }
}

/// The register state of the thread that is (or is about to be) running.
#[derive(Clone, Copy, Debug)]
pub struct TrapFrame {
    syscall_number: usize,
    tag: MessageTag,
    mrs: [usize; MR_COUNT],
    raw: [usize; RAW_WORDS],
}

impl View for TrapFrame {
    type V = Registers;

    closed spec fn view(&self) -> Registers {
        Registers {
            syscall_number: self.syscall_number,
            tag: self.tag,
            mrs: self.mrs@,
            raw: self.raw@,
        }
    }
}

impl TrapFrame {
    /// A frame always holds `MR_COUNT` message registers and `RAW_WORDS` raw words.
    pub broadcast proof fn lemma_wf(&self)
        ensures
            (#[trigger] self@).wf(),
    {
    }

    pub fn zeroed() -> (frame: Self)
        ensures
            frame@ == Registers::zeroed(),
    {
        let frame = TrapFrame {
            syscall_number: 0,
            tag: MessageTag { label: 0, length: 0, extra_caps: 0, flags: 0 },
            mrs: [0;MR_COUNT],
            raw: [0;RAW_WORDS],
        };
        assert(frame@ =~= Registers::zeroed());
        frame
    }

    pub fn syscall_number(&self) -> (number: usize)
        ensures
            number == self@.syscall_number,
    {
        self.syscall_number
    }

    pub fn set_syscall_number(&mut self, number: usize)
        ensures
            final(self)@ == (Registers { syscall_number: number, ..old(self)@ }),
    {
        self.syscall_number = number;
    }

    pub fn tag(&self) -> (tag: MessageTag)
        ensures
            tag == self@.tag,
    {
        self.tag
    }

    pub fn set_tag(&mut self, tag: MessageTag)
        ensures
            final(self)@ == old(self)@.with_tag(tag),
            final(self)@.tag == tag,
            final(self)@ == (Registers { tag: final(self)@.tag, ..old(self)@ }),
    {
        self.tag = tag;
    }

    pub fn mr(&self, index: usize) -> (value: usize)
        requires
            index < MR_COUNT,
        ensures
            value == self@.mrs[index as int],
    {
        self.mrs[index]
    }

    pub fn set_mr(&mut self, index: usize, value: usize)
        requires
            index < MR_COUNT,
        ensures
            final(self)@ == old(self)@.with_mr(index as int, value),
            final(self)@.mrs == old(self)@.mrs.update(index as int, value),
            final(self)@ == (Registers { mrs: final(self)@.mrs, ..old(self)@ }),
    {
        self.mrs[index] = value;
    }

    pub fn raw_word(&self, index: usize) -> (value: usize)
        requires
            index < RAW_WORDS,
        ensures
            value == self@.raw[index as int],
    {
        self.raw[index]
    }

    pub fn set_raw_word(&mut self, index: usize, value: usize)
        requires
            index < RAW_WORDS,
        ensures
            final(self)@ == (Registers { raw: old(self)@.raw.update(index as int, value), ..old(self)@ }),
    {
        self.raw[index] = value;
    }
}

} // verus!
