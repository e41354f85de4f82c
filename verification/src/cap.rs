//! Capabilities and rights. A capability designates a kernel object, by its pool
//! index, and says what its holder may do with it. Capabilities live in the slots of
//! CNodes and nowhere else that user code can write.

use vstd::prelude::*;
use vstd::std_specs::cmp::PartialEqSpecImpl;

use crate::limits::CNODE_SLOTS;

verus! {

/// Names a slot in the CNode that is the invoking thread's CSpace.
pub type CPtr = usize;

#[derive(Clone, Copy, PartialEq, Eq, Structural, Debug)]
pub struct CNodeId(pub u16);

/// Threads are kept in queues, which look for one by `==`.
#[derive(Clone, Copy, Eq, Debug)]
pub struct TcbId(pub u16);

impl PartialEq for TcbId {
    fn eq(&self, other: &Self) -> (equal: bool) {
        self.0 == other.0
    }
}

impl PartialEqSpecImpl for TcbId {
    open spec fn obeys_eq_spec() -> bool {
        true
    }

    open spec fn eq_spec(&self, other: &Self) -> bool {
        *self == *other
    }
}

#[derive(Clone, Copy, PartialEq, Eq, Structural, Debug)]
pub struct EndpointId(pub u16);

#[derive(Clone, Copy, PartialEq, Eq, Structural, Debug)]
pub struct NotificationId(pub u16);

#[derive(Clone, Copy, PartialEq, Eq, Structural, Debug)]
pub struct UntypedId(pub u16);

#[derive(Clone, Copy, PartialEq, Eq, Structural, Debug)]
pub struct SchedContextId(pub u16);

#[derive(Clone, Copy, PartialEq, Eq, Structural, Debug)]
pub struct VSpaceId(pub u16);

#[derive(Clone, Copy, PartialEq, Eq, Structural, Debug)]
pub struct FrameId(pub u16);

/// A set of rights: read, write, and grant. Minting a capability may only narrow
/// its rights (see `crate::cnode`).
#[derive(Clone, Copy, PartialEq, Eq, Structural, Debug)]
pub struct Rights(u8);

impl View for Rights {
    type V = u8;

    /// One bit for each right.
    closed spec fn view(&self) -> u8 {
        self.0
    }
}

impl Rights {
    /// The set that `bits` encodes.
    pub closed spec fn of(bits: u8) -> Rights {
        Rights(bits)
    }

    /// A set of rights is its bits.
    pub broadcast proof fn lemma_of(bits: u8)
        ensures
            (#[trigger] Rights::of(bits))@ == bits,
    {
    }

    /// Sets of rights with the same bits are the same.
    pub proof fn lemma_ext(self, other: Rights)
        ensures
            self@ == other@ <==> self == other,
    {
    }

    pub open spec fn spec_none() -> Rights {
        Rights::of(0)
    }

    pub open spec fn spec_read() -> Rights {
        Rights::of(1)
    }

    pub open spec fn spec_write() -> Rights {
        Rights::of(2)
    }

    pub open spec fn spec_grant() -> Rights {
        Rights::of(4)
    }

    pub open spec fn spec_all() -> Rights {
        Rights::of(7)
    }

    pub open spec fn spec_union(self, other: Rights) -> Rights {
        Rights::of(self@ | other@)
    }

    pub open spec fn spec_contains(self, other: Rights) -> bool {
        self@ & other@ == other@
    }

    pub open spec fn spec_is_subset_of(self, other: Rights) -> bool {
        self@ & !other@ == 0
    }

    pub open spec fn spec_from_bits_truncate(bits: u8) -> Rights {
        Rights::of(bits & Rights::spec_all()@)
    }

    /// No rights at all.
    #[verifier::when_used_as_spec(spec_none)]
    pub fn none() -> (rights: Rights)
        ensures
            rights == Rights::spec_none(),
    {
        Rights(0)
    }

    #[verifier::when_used_as_spec(spec_read)]
    pub fn read() -> (rights: Rights)
        ensures
            rights == Rights::spec_read(),
    {
        Rights(1)
    }

    #[verifier::when_used_as_spec(spec_write)]
    pub fn write() -> (rights: Rights)
        ensures
            rights == Rights::spec_write(),
    {
        Rights(2)
    }

    /// The right to hand this capability to another thread in a message.
    #[verifier::when_used_as_spec(spec_grant)]
    pub fn grant() -> (rights: Rights)
        ensures
            rights == Rights::spec_grant(),
    {
        Rights(4)
    }

    /// Every right there is.
    #[verifier::when_used_as_spec(spec_all)]
    pub fn all() -> (rights: Rights)
        ensures
            rights == Rights::spec_all(),
    {
        Rights(7)
    }

    #[verifier::when_used_as_spec(spec_union)]
    pub fn union(self, other: Rights) -> (rights: Rights)
        ensures
            rights == self.spec_union(other),
    {
        Rights(self.0 | other.0)
    }

    #[verifier::when_used_as_spec(spec_contains)]
    pub fn contains(self, other: Rights) -> (yes: bool)
        ensures
            yes == self.spec_contains(other),
    {
        self.0 & other.0 == other.0
    }

    /// Whether every right in `self` is also in `other`.
    #[verifier::when_used_as_spec(spec_is_subset_of)]
    pub fn is_subset_of(self, other: Rights) -> (yes: bool)
        ensures
            yes == self.spec_is_subset_of(other),
    {
        self.0 & !other.0 == 0
    }

    /// Decodes rights from raw bits. Bits that stand for no right are masked off.
    #[verifier::when_used_as_spec(spec_from_bits_truncate)]
    pub fn from_bits_truncate(bits: u8) -> (rights: Rights)
        ensures
            rights == Rights::spec_from_bits_truncate(bits),
    {
        Rights(bits & Rights::all().0)
    }

    pub fn bits(self) -> (bits: u8)
        ensures
            bits == self@,
    {
        self.0
    }
}

/// Rights are bits: read is the first, write the second and grant the third, and there is no
/// other. A set contains another if it has every bit of it; a union has the bits of both.
pub proof fn law_rights_are_bits(a: Rights, b: Rights, bits: u8)
    ensures
        Rights::none()@ == 0,
        Rights::read()@ == 1,
        Rights::write()@ == 2,
        Rights::grant()@ == 4,
        Rights::all()@ == 7,
        a.union(b)@ == a@ | b@,
        a.contains(b) <==> a@ | b@ == a@,
        a.is_subset_of(b) <==> a@ | b@ == b@,
        Rights::from_bits_truncate(bits)@ == bits % 8,
{
    broadcast use Rights::lemma_of;

    let (x, y) = (a@, b@);
    assert(x & y == y <==> x | y == x) by (bit_vector);
    assert(x & !y == 0u8 <==> x | y == y) by (bit_vector);
    assert(bits & 7u8 == bits % 8u8) by (bit_vector);
}

/// Being a subset is a partial order.
pub proof fn law_subset_is_a_partial_order(a: Rights, b: Rights, c: Rights)
    ensures
        a.is_subset_of(a),
        a.is_subset_of(b) && b.is_subset_of(a) ==> a == b,
        a.is_subset_of(b) && b.is_subset_of(c) ==> a.is_subset_of(c),
{
    let (x, y, z) = (a@, b@, c@);
    assert(x & !x == 0u8) by (bit_vector);
    assert(x & !y == 0u8 && y & !x == 0u8 ==> x == y) by (bit_vector);
    assert(x & !y == 0u8 && y & !z == 0u8 ==> x & !z == 0u8) by (bit_vector);
    a.lemma_ext(b);
}

/// Containing a set of rights is having it as a subset.
pub proof fn law_contains_is_superset(a: Rights, b: Rights)
    ensures
        a.contains(b) <==> b.is_subset_of(a),
{
    let (x, y) = (a@, b@);
    assert(x & y == y <==> y & !x == 0u8) by (bit_vector);
}

/// The union is the smallest set of rights that contains both.
pub proof fn law_union_is_least_upper_bound(a: Rights, b: Rights, c: Rights)
    ensures
        a.is_subset_of(a.union(b)),
        b.is_subset_of(a.union(b)),
        a.is_subset_of(c) && b.is_subset_of(c) ==> a.union(b).is_subset_of(c),
{
    broadcast use Rights::lemma_of;

    let (x, y, z) = (a@, b@, c@);
    assert(x & !(x | y) == 0u8) by (bit_vector);
    assert(y & !(x | y) == 0u8) by (bit_vector);
    assert(x & !z == 0u8 && y & !z == 0u8 ==> (x | y) & !z == 0u8) by (bit_vector);
}

/// Whatever bits are decoded, the result holds known rights only, and no right whose
/// bit was not set; bits that all stand for rights survive.
pub proof fn law_truncation_keeps_known_rights(bits: u8)
    ensures
        Rights::from_bits_truncate(bits).is_subset_of(Rights::all()),
        Rights::from_bits_truncate(bits).is_subset_of(Rights::of(bits)),
        Rights::of(bits).is_subset_of(Rights::all()) ==> Rights::from_bits_truncate(bits)
            == Rights::of(bits),
{
    broadcast use Rights::lemma_of;

    assert((bits & 7u8) & !7u8 == 0u8) by (bit_vector);
    assert((bits & 7u8) & !bits == 0u8) by (bit_vector);
    assert(bits & !7u8 == 0u8 ==> bits & 7u8 == bits) by (bit_vector);
}

/// No rights are a subset of any, and the empty set is the only subset of itself.
pub proof fn law_none_is_least(a: Rights)
    ensures
        Rights::none().is_subset_of(a),
        a.is_subset_of(Rights::none()) ==> a == Rights::none(),
{
    broadcast use Rights::lemma_of;

    let x = a@;
    assert(0u8 & !x == 0u8) by (bit_vector);
    assert(x & !0u8 == 0u8 ==> x == 0u8) by (bit_vector);
    a.lemma_ext(Rights::none());
}

/// The type of object that a retype can ask for.
#[derive(Clone, Copy, PartialEq, Eq, Structural, Debug)]
pub enum ObjectType {
    CNode,
    Untyped,
    Endpoint,
    Notification,
    Tcb,
    SchedContext,
    VSpace,
    FrameSmall,
    FrameMega,
}

impl ObjectType {
    /// The number that asks for this type.
    pub open spec fn number(self) -> usize {
        match self {
            ObjectType::CNode => 0,
            ObjectType::Untyped => 1,
            ObjectType::Endpoint => 2,
            ObjectType::Notification => 3,
            ObjectType::Tcb => 4,
            ObjectType::SchedContext => 5,
            ObjectType::VSpace => 6,
            ObjectType::FrameSmall => 7,
            ObjectType::FrameMega => 8,
        }
    }

    pub open spec fn spec_from_usize(n: usize) -> Option<ObjectType> {
        if exists|t: ObjectType| (#[trigger] t.number()) == n {
            Some(choose|t: ObjectType| (#[trigger] t.number()) == n)
        } else {
            None
        }
    }

    /// Decodes the object type that a retype asks for.
    #[verifier::when_used_as_spec(spec_from_usize)]
    pub fn from_usize(n: usize) -> (object_type: Option<ObjectType>)
        ensures
            object_type == ObjectType::spec_from_usize(n),
    {
        let object_type = match n {
            0 => ObjectType::CNode,
            1 => ObjectType::Untyped,
            2 => ObjectType::Endpoint,
            3 => ObjectType::Notification,
            4 => ObjectType::Tcb,
            5 => ObjectType::SchedContext,
            6 => ObjectType::VSpace,
            7 => ObjectType::FrameSmall,
            8 => ObjectType::FrameMega,
            _ => return None,
        };
        assert(object_type.number() == n);
        Some(object_type)
    }
}

/// Decoding undoes numbering, and nothing else decodes.
pub proof fn law_object_type_numbers(t: ObjectType, n: usize)
    ensures
        ObjectType::from_usize(t.number()) == Some(t),
        ObjectType::from_usize(n) is None <==> n > 8,
        ObjectType::from_usize(n) matches Some(u) ==> u.number() == n,
{
    if n <= 8 {
        let witness = if n == 0 {
            ObjectType::CNode
        } else if n == 1 {
            ObjectType::Untyped
        } else if n == 2 {
            ObjectType::Endpoint
        } else if n == 3 {
            ObjectType::Notification
        } else if n == 4 {
            ObjectType::Tcb
        } else if n == 5 {
            ObjectType::SchedContext
        } else if n == 6 {
            ObjectType::VSpace
        } else if n == 7 {
            ObjectType::FrameSmall
        } else {
            ObjectType::FrameMega
        };
        assert(witness.number() == n);
    }
}

/// What one slot of a CNode holds.
#[allow(inconsistent_fields)]
#[derive(Clone, Copy, Eq, Debug)]
pub enum Capability {
    /// An empty slot. A `CPtr` that names one is an invalid capability; a `CPtr` past
    /// the end of the CNode is a failed lookup.
    Null,
    CNode(CNodeId),
    Untyped { id: UntypedId, rights: Rights },
    /// The badge lets a service tell its callers apart without trusting what they say
    /// of themselves.
    Endpoint { id: EndpointId, badge: u64, rights: Rights },
    Notification { id: NotificationId, badge: u64, rights: Rights },
    Tcb { id: TcbId, rights: Rights },
    SchedContext { id: SchedContextId, rights: Rights },
    VSpace { id: VSpaceId, rights: Rights },
    Frame { id: FrameId, rights: Rights },
    /// Names the caller to reply to. The kernel keeps reply links in the thread
    /// control blocks and never stores one of these.
    Reply { tcb: TcbId },
}

impl PartialEq for Capability {
    fn eq(&self, other: &Self) -> (equal: bool) {
        match (*self, *other) {
            (Capability::Null, Capability::Null) => true,
            (Capability::CNode(a), Capability::CNode(b)) => a == b,
            (
                Capability::Untyped { id: a, rights: r },
                Capability::Untyped { id: b, rights: s },
            ) => a == b && r == s,
            (
                Capability::Endpoint { id: a, badge: m, rights: r },
                Capability::Endpoint { id: b, badge: n, rights: s },
            ) => a == b && m == n && r == s,
            (
                Capability::Notification { id: a, badge: m, rights: r },
                Capability::Notification { id: b, badge: n, rights: s },
            ) => a == b && m == n && r == s,
            (
                Capability::Tcb { id: a, rights: r },
                Capability::Tcb { id: b, rights: s },
            ) => a == b && r == s,
            (
                Capability::SchedContext { id: a, rights: r },
                Capability::SchedContext { id: b, rights: s },
            ) => a == b && r == s,
            (
                Capability::VSpace { id: a, rights: r },
                Capability::VSpace { id: b, rights: s },
            ) => a == b && r == s,
            (
                Capability::Frame { id: a, rights: r },
                Capability::Frame { id: b, rights: s },
            ) => a == b && r == s,
            (Capability::Reply { tcb: a }, Capability::Reply { tcb: b }) => a == b,
            _ => false,
        }
    }
}

impl PartialEqSpecImpl for Capability {
    open spec fn obeys_eq_spec() -> bool {
        true
    }

    open spec fn eq_spec(&self, other: &Self) -> bool {
        *self == *other
    }
}

impl Capability {
    pub open spec fn spec_object_type(&self) -> Option<ObjectType> {
        match self {
            Capability::Null | Capability::Reply { .. } | Capability::Frame { .. } => None,
            Capability::CNode(_) => Some(ObjectType::CNode),
            Capability::Untyped { .. } => Some(ObjectType::Untyped),
            Capability::Endpoint { .. } => Some(ObjectType::Endpoint),
            Capability::Notification { .. } => Some(ObjectType::Notification),
            Capability::Tcb { .. } => Some(ObjectType::Tcb),
            Capability::SchedContext { .. } => Some(ObjectType::SchedContext),
            Capability::VSpace { .. } => Some(ObjectType::VSpace),
        }
    }

    pub open spec fn spec_rights(&self) -> Rights {
        match self {
            Capability::Null | Capability::CNode(_) | Capability::Reply { .. } => Rights::none(),
            Capability::Untyped { rights, .. } => *rights,
            Capability::Endpoint { rights, .. } => *rights,
            Capability::Notification { rights, .. } => *rights,
            Capability::Tcb { rights, .. } => *rights,
            Capability::SchedContext { rights, .. } => *rights,
            Capability::VSpace { rights, .. } => *rights,
            Capability::Frame { rights, .. } => *rights,
        }
    }

    /// The type of the object that this capability designates. `None` for an empty
    /// slot, for a reply, and for a frame, whose capability does not tell its size.
    #[verifier::when_used_as_spec(spec_object_type)]
    pub fn object_type(&self) -> (object_type: Option<ObjectType>)
        ensures
            object_type == self.spec_object_type(),
    {
        match self {
            Capability::Null | Capability::Reply { .. } | Capability::Frame { .. } => None,
            Capability::CNode(_) => Some(ObjectType::CNode),
            Capability::Untyped { .. } => Some(ObjectType::Untyped),
            Capability::Endpoint { .. } => Some(ObjectType::Endpoint),
            Capability::Notification { .. } => Some(ObjectType::Notification),
            Capability::Tcb { .. } => Some(ObjectType::Tcb),
            Capability::SchedContext { .. } => Some(ObjectType::SchedContext),
            Capability::VSpace { .. } => Some(ObjectType::VSpace),
        }
    }

    #[verifier::when_used_as_spec(spec_rights)]
    pub fn rights(&self) -> (rights: Rights)
        ensures
            rights == self.spec_rights(),
    {
        match self {
            Capability::Null | Capability::CNode(_) | Capability::Reply { .. } => Rights::none(),
            Capability::Untyped { rights, .. }
            | Capability::Endpoint { rights, .. }
            | Capability::Notification { rights, .. }
            | Capability::Tcb { rights, .. }
            | Capability::SchedContext { rights, .. }
            | Capability::VSpace { rights, .. }
            | Capability::Frame { rights, .. } => *rights,
        }
    }

    /// Whether both designate the same object, or are both none.
    pub open spec fn same_object(self, other: Capability) -> bool {
        match (self, other) {
            (Capability::Null, Capability::Null) => true,
            (Capability::CNode(a), Capability::CNode(b)) => a == b,
            (Capability::Untyped { id: a, .. }, Capability::Untyped { id: b, .. }) => a == b,
            (Capability::Endpoint { id: a, .. }, Capability::Endpoint { id: b, .. }) => a == b,
            (
                Capability::Notification { id: a, .. },
                Capability::Notification { id: b, .. },
            ) => a == b,
            (Capability::Tcb { id: a, .. }, Capability::Tcb { id: b, .. }) => a == b,
            (
                Capability::SchedContext { id: a, .. },
                Capability::SchedContext { id: b, .. },
            ) => a == b,
            (Capability::VSpace { id: a, .. }, Capability::VSpace { id: b, .. }) => a == b,
            (Capability::Frame { id: a, .. }, Capability::Frame { id: b, .. }) => a == b,
            (Capability::Reply { tcb: a }, Capability::Reply { tcb: b }) => a == b,
            _ => false,
        }
    }

    /// Whether this capability is one that a holder of `origin` may come by: it
    /// designates the same object, and grants no right that `origin` does not grant.
    pub open spec fn derives_from(self, origin: Capability) -> bool {
        &&& self.rights().is_subset_of(origin.rights())
        &&& self.same_object(origin)
    }
}

/// A capability derives from itself, and deriving is transitive: however often a
/// capability is handed on, it never comes to grant more than the first one did.
pub proof fn law_derivation_is_a_preorder(a: Capability, b: Capability, c: Capability)
    ensures
        a.derives_from(a),
        a.derives_from(b) && b.derives_from(c) ==> a.derives_from(c),
{
    law_subset_is_a_partial_order(a.rights(), b.rights(), c.rights());
}

/// A table of capabilities. A CSpace is a single CNode.
#[derive(Clone, Copy, Debug)]
pub struct CNode {
    slots: [Capability; CNODE_SLOTS],
}

impl View for CNode {
    type V = Seq<Capability>;

    closed spec fn view(&self) -> Seq<Capability> {
        self.slots@
    }
}

/// What the slot that `cptr` names holds; `None` past the end.
pub open spec fn slot(slots: Seq<Capability>, cptr: CPtr) -> Option<Capability> {
    if cptr < slots.len() {
        Some(slots[cptr as int])
    } else {
        None
    }
}

impl CNode {
    /// A CNode has `CNODE_SLOTS` slots throughout.
    pub broadcast proof fn lemma_capacity(&self)
        ensures
            #[trigger] self@.len() == CNODE_SLOTS,
    {
    }

    pub open spec fn spec_empty() -> Seq<Capability> {
        Seq::new(CNODE_SLOTS as nat, |i: int| Capability::Null)
    }

    pub fn empty() -> (cnode: Self)
        ensures
            cnode@ == CNode::spec_empty(),
    {
        let cnode = CNode { slots: [Capability::Null;CNODE_SLOTS] };
        assert(cnode@ =~= CNode::spec_empty());
        cnode
    }

    pub fn get(&self, cptr: CPtr) -> (cap: Option<Capability>)
        ensures
            cap == slot(self@, cptr),
    {
        if cptr < CNODE_SLOTS {
            Some(self.slots[cptr])
        } else {
            None
        }
    }

    pub fn slot_mut(&mut self, cptr: CPtr) -> (cap: Option<&mut Capability>)
        ensures
            match cap {
                Some(c) => {
                    &&& slot(old(self)@, cptr) == Some(*c)
                    &&& final(self)@ == old(self)@.update(cptr as int, *final(c))
                },
                None => slot(old(self)@, cptr) is None && final(self)@ == old(self)@,
            },
    {
        if cptr < CNODE_SLOTS {
            Some(&mut self.slots[cptr])
        } else {
            None
        }
    }
}

impl Default for CNode {
    fn default() -> (cnode: Self)
        ensures
            cnode@ == CNode::spec_empty(),
    {
        CNode::empty()
    }
}

} // verus!
