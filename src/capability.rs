//! Capabilities: which operations a holder may perform and which of them it
//! may hand on to a delegate.

use vstd::prelude::*;

verus! {

/// `a ⊆ b`, reading both as sets of bits.
pub open spec fn bits_within(a: u64, b: u64) -> bool {
    a & b == a
}

/// Operations allowed to the holder (`actions`) and the part of them the
/// holder may delegate further (`share`), one bit per operation.
#[derive(Clone, Copy, Debug, PartialEq, Eq, Structural)]
pub struct Capability {
    /// Allowed operations.
    pub actions: u64,
    /// Operations that may be delegated.
    pub share: u64,
}

impl Capability {
    /// The shareable set lies within the allowed set.
    pub open spec fn well_formed(self) -> bool {
        bits_within(self.share, self.actions)
    }

    /// `self` may be granted by a holder of `other`: everything `self`
    /// allows, and everything it may share, is shareable in `other`.
    pub open spec fn within(self, other: Capability) -> bool {
        bits_within(self.actions, other.share) && bits_within(self.share, other.share)
    }

    /// The capability a holder of `self` grants when restricting it to the
    /// masks `actions` and `share`.
    pub open spec fn restricted(self, actions: u64, share: u64) -> Capability {
        Capability { actions: self.share & actions, share: self.share & (share & actions) }
    }

    /// Component-wise intersection, with the shareable set masked by the
    /// resulting allowed set.
    pub open spec fn intersection(self, other: Capability) -> Capability {
        Capability {
            actions: self.actions & other.actions,
            share: (self.share & other.share) & (self.actions & other.actions),
        }
    }

    /// A capability with `share` masked by `actions`.
    pub fn new(actions: u64, share: u64) -> (r: Self)
        ensures
            r.actions == actions,
            r.share == share & actions,
            r.well_formed(),
    {
        proof {
            lemma_and_within(share, actions);
        }
        Capability { actions, share: share & actions }
    }

    /// The capability that allows nothing.
    pub fn empty() -> (r: Self)
        ensures
            r.actions == 0,
            r.share == 0,
            r.well_formed(),
    {
        proof {
            lemma_zero_within(0);
        }
        Capability { actions: 0, share: 0 }
    }

    /// A capability derived from `self` by the masks `actions` and `share`;
    /// it never exceeds what `self` may share.
    pub fn subset(&self, actions: u64, share: u64) -> (r: Self)
        ensures
            r == self.restricted(actions, share),
            r.well_formed(),
            r.within(*self),
    {
        proof {
            lemma_restricted(self.share, actions, share);
        }
        Capability { actions: self.share & actions, share: self.share & (share & actions) }
    }

    /// Restrict `self` in place, as `subset` does.
    pub fn subset_inplace(&mut self, actions: u64, share: u64)
        ensures
            *final(self) == old(self).restricted(actions, share),
            final(self).well_formed(),
            final(self).within(*old(self)),
    {
        proof {
            lemma_restricted(self.share, actions, share);
        }
        let s = self.share;
        self.actions = s & actions;
        self.share = s & (share & actions);
    }

    /// Component-wise intersection of two capabilities.
    pub fn intersect(&self, other: &Capability) -> (r: Self)
        ensures
            r == self.intersection(*other),
            r.well_formed(),
    {
        proof {
            lemma_and_within(self.share & other.share, self.actions & other.actions);
        }
        Capability {
            actions: self.actions & other.actions,
            share: (self.share & other.share) & (self.actions & other.actions),
        }
    }

    /// Whether some operation of `action` is allowed.
    pub fn is_allowed(&self, action: u64) -> (r: bool)
        ensures
            r == (self.actions & action != 0),
    {
        (self.actions & action) != 0
    }

    /// Whether some operation of `action` may be delegated.
    pub fn is_shareable(&self, action: u64) -> (r: bool)
        ensures
            r == (self.share & action != 0),
    {
        (self.share & action) != 0
    }

    /// Whether the capability allows and shares nothing.
    pub fn is_empty(&self) -> (r: bool)
        ensures
            r == (self.actions == 0 && self.share == 0),
    {
        self.actions == 0 && self.share == 0
    }

    /// Whether the shareable set lies within the allowed set.
    pub fn is_valid(&self) -> (r: bool)
        ensures
            r == self.well_formed(),
    {
        self.share == self.share & self.actions
    }

    /// Whether `self` may be granted by a holder of `cap`.
    pub fn is_subset(&self, cap: &Self) -> (r: bool)
        ensures
            r == self.within(*cap),
    {
        (self.actions & cap.share) == self.actions && (self.share & cap.share) == self.share
    }
}

/// `a & b` grants from `a` what the masks of `b` select: `a.subset(b.actions, b.share)`.
impl core::ops::BitAnd for Capability {
    type Output = Capability;

    fn bitand(self, rhs: Capability) -> (r: Capability)
        ensures
            r == self.restricted(rhs.actions, rhs.share),
            r.well_formed(),
    {
        self.subset(rhs.actions, rhs.share)
    }
}

impl vstd::std_specs::ops::BitAndSpecImpl for Capability {
    open spec fn obeys_bitand_spec() -> bool {
        true
    }

    open spec fn bitand_req(self, rhs: Capability) -> bool {
        true
    }

    open spec fn bitand_spec(self, rhs: Capability) -> Capability {
        self.restricted(rhs.actions, rhs.share)
    }
}

/// `a &= b` restricts `a` in place as `a & b` does.
impl core::ops::BitAndAssign for Capability {
    fn bitand_assign(&mut self, rhs: Capability)
        ensures
            *final(self) == old(self).restricted(rhs.actions, rhs.share),
            final(self).well_formed(),
    {
        self.subset_inplace(rhs.actions, rhs.share)
    }
}

proof fn lemma_and_within(a: u64, b: u64)
    ensures
        bits_within(a & b, b),
        bits_within(a & b, a),
{
    assert((a & b) & b == a & b) by (bit_vector);
    assert((a & b) & a == a & b) by (bit_vector);
}

proof fn lemma_zero_within(a: u64)
    ensures
        bits_within(0, a),
{
    assert(0u64 & a == 0) by (bit_vector);
}

proof fn lemma_restricted(s: u64, actions: u64, share: u64)
    ensures
        bits_within(s & (share & actions), s & actions),
        bits_within(s & actions, s),
        bits_within(s & (share & actions), s),
{
    assert((s & (share & actions)) & (s & actions) == s & (share & actions)) by (bit_vector);
    assert((s & actions) & s == s & actions) by (bit_vector);
    assert((s & (share & actions)) & s == s & (share & actions)) by (bit_vector);
}

/// The intersection of two capabilities can be granted by a holder of either
/// one exactly when the operations they both allow are shareable in both.
pub proof fn lemma_intersection_within_both(a: Capability, b: Capability)
    requires
        bits_within(a.actions & b.actions, a.share & b.share),
    ensures
        a.intersection(b).within(a),
        a.intersection(b).within(b),
{
    let (aa, ab, sa, sb) = (a.actions, b.actions, a.share, b.share);
    assert((aa & ab) & (sa & sb) == aa & ab ==> (aa & ab) & sa == aa & ab && (aa & ab) & sb == aa
        & ab) by (bit_vector);
    assert(((sa & sb) & (aa & ab)) & sa == (sa & sb) & (aa & ab) && ((sa & sb) & (aa & ab)) & sb
        == (sa & sb) & (aa & ab)) by (bit_vector);
}

/// Granting is transitive: what may be granted from something grantable from
/// `a` may be granted from `a`.
pub proof fn lemma_within_transitive(c: Capability, b: Capability, a: Capability)
    requires
        c.within(b),
        b.within(a),
    ensures
        c.within(a),
{
    let (ca, cs, bs, as_) = (c.actions, c.share, b.share, a.share);
    assert(ca & bs == ca && bs & as_ == bs ==> ca & as_ == ca) by (bit_vector);
    assert(cs & bs == cs && bs & as_ == bs ==> cs & as_ == cs) by (bit_vector);
}

/// Only the empty capability can be granted from the empty capability.
pub proof fn lemma_within_empty(c: Capability)
    ensures
        c.within(Capability { actions: 0, share: 0 }) <==> (c.actions == 0 && c.share == 0),
{
    let (ca, cs) = (c.actions, c.share);
    assert(ca & 0 == ca <==> ca == 0) by (bit_vector);
    assert(cs & 0 == cs <==> cs == 0) by (bit_vector);
}

/// A well-formed capability can be granted from itself exactly when all
/// that it allows is shareable.
pub proof fn lemma_within_self(c: Capability)
    requires
        c.well_formed(),
    ensures
        c.within(c) <==> bits_within(c.actions, c.share),
{
    let cs = c.share;
    assert(cs & cs == cs) by (bit_vector);
}

} // verus!
