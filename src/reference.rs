//! Object references carrying a signed chain of delegations.
//!
//! The first certificate is signed by the reference's issuer; each later one
//! by the subject of the certificate before it, and may only narrow the
//! capability granted. Each certificate signs a payload bound to its place in
//! the chain: the first one binds the id, issuer and `max_share`, each later
//! one the signature of its predecessor.

use vstd::prelude::*;

use crate::capability::Capability;
use crate::encoding::{
    le_u32, le_u64, lemma_le_u32_inverse, lemma_le_u64_inverse, lemma_u32_le_round_trip, lemma_u64_le_round_trip, push_all,
    push_u32_le, push_u64_le, read_u32_le, read_u64_le, u32_le, u64_le, AsBytes,
};
use crate::signature::{array32, array64, ed25519_accepts, Keypair, PublicKey, Signature};
use crate::validate::Validate;

verus! {

/// Object ids: values with a canonical byte encoding that can be copied.
pub trait ObjectId: Sized {
    /// The canonical encoding of the id.
    spec fn id_bytes(&self) -> Seq<u8>;

    /// Append the canonical encoding of the id.
    fn encode_id(&self, out: &mut Vec<u8>)
        ensures
            final(out)@ == old(out)@ + self.id_bytes(),
    ;

    /// A copy of the id.
    fn copy_id(&self) -> (r: Self)
        ensures
            r == *self,
    ;

    /// The fixed width of the encoding.
    spec fn id_width() -> nat;

    /// The fixed width of the encoding.
    fn width() -> (r: usize)
        ensures
            r == Self::id_width(),
    ;

    /// Every id's encoding has the fixed width.
    proof fn lemma_id_width(&self)
        ensures
            self.id_bytes().len() == Self::id_width(),
    ;

    /// Different ids have different encodings.
    proof fn lemma_id_injective(&self, other: &Self)
        ensures
            self.id_bytes() == other.id_bytes() ==> *self == *other,
    ;

    /// The id whose encoding is `b`.
    fn decode_id(b: &[u8]) -> (r: Self)
        requires
            b@.len() == Self::id_width(),
        ensures
            r.id_bytes() == b@,
    ;
}

impl ObjectId for u64 {
    open spec fn id_bytes(&self) -> Seq<u8> {
        u64_le(*self)
    }

    fn encode_id(&self, out: &mut Vec<u8>) {
        push_u64_le(out, *self);
    }

    fn copy_id(&self) -> (r: Self) {
        *self
    }

    open spec fn id_width() -> nat {
        8
    }

    fn width() -> (r: usize) {
        8
    }

    proof fn lemma_id_width(&self) {
    }

    proof fn lemma_id_injective(&self, other: &Self) {
        lemma_u64_le_round_trip(*self);
        lemma_u64_le_round_trip(*other);
    }

    fn decode_id(b: &[u8]) -> (r: Self) {
        proof {
            lemma_le_u64_inverse(b@);
        }
        read_u64_le(b)
    }
}

impl ObjectId for AsBytes<PublicKey> {
    open spec fn id_bytes(&self) -> Seq<u8> {
        self.inner.bytes@
    }

    fn encode_id(&self, out: &mut Vec<u8>) {
        push_all(out, self.inner.bytes.as_slice());
    }

    fn copy_id(&self) -> (r: Self) {
        AsBytes { inner: self.inner }
    }

    open spec fn id_width() -> nat {
        32
    }

    fn width() -> (r: usize) {
        32
    }

    proof fn lemma_id_width(&self) {
    }

    proof fn lemma_id_injective(&self, other: &Self) {
        if self.id_bytes() == other.id_bytes() {
            assert(self.inner.bytes =~= other.inner.bytes);
        }
    }

    fn decode_id(b: &[u8]) -> (r: Self) {
        let bytes = array32(b);
        assert(b@.subrange(0, 32) =~= b@);
        AsBytes { inner: PublicKey { bytes } }
    }
}

/// Why a reference could not be extended or did not validate.
#[derive(Clone, Copy, Debug, PartialEq, Eq, Structural)]
pub enum Error {
    /// The chain holds no certificate.
    Empty,
    /// A certificate grants more than its predecessor may share.
    Capability,
    /// The signer is not the subject of the last certificate.
    Issuer,
    /// The last certificate is not for the expected subject.
    Subject,
    /// The chain is, or would become, longer than `max_share + 1`.
    MaxShare,
    /// The signature of the certificate at this index does not verify.
    Signature(usize),
}

/// A grant of `capability` to the holder of the key `subject`.
#[derive(Clone, Copy, Debug, PartialEq, Eq)]
pub struct Authorization {
    pub capability: Capability,
    pub subject: PublicKey,
}

impl Authorization {
    pub fn new(capability: Capability, subject: PublicKey) -> (r: Self)
        ensures
            r.capability == capability,
            r.subject == subject,
    {
        Authorization { capability, subject }
    }
}

/// An authorization with the signature of its issuer.
#[derive(Clone, Copy, Debug, PartialEq, Eq)]
pub struct Certificate {
    pub auth: Authorization,
    pub signature: Signature,
}

/// The bytes of an authorization inside a signed payload: both capability
/// fields, then the raw subject key.
pub open spec fn auth_bytes(auth: Authorization) -> Seq<u8> {
    u64_le(auth.capability.actions) + u64_le(auth.capability.share) + auth.subject.bytes@
}

/// What the first certificate signs.
pub open spec fn first_payload(auth: Authorization, id: Seq<u8>, issuer: PublicKey, max_share: u32) -> Seq<u8> {
    seq![0u8] + auth_bytes(auth) + id + issuer.bytes@ + u32_le(max_share)
}

/// What a later certificate signs.
pub open spec fn next_payload(auth: Authorization, prev: Signature) -> Seq<u8> {
    seq![1u8] + auth_bytes(auth) + prev.bytes@
}

/// The payload a certificate signs, by its position in the chain.
pub enum CertData<Id> {
    /// For the first certificate: the authorization, id, issuer and bound.
    Reference(Authorization, Id, PublicKey, u32),
    /// For a later certificate: the authorization and the signature before it.
    Signature(Authorization, Signature),
}

impl<Id: ObjectId> CertData<Id> {
    /// The canonical encoding, tagged by variant.
    pub open spec fn encoding(&self) -> Seq<u8> {
        match self {
            CertData::Reference(auth, id, issuer, max_share) => first_payload(
                *auth,
                id.id_bytes(),
                *issuer,
                *max_share,
            ),
            CertData::Signature(auth, prev) => next_payload(*auth, *prev),
        }
    }

    /// The canonical encoding, tagged by variant.
    pub fn to_bytes(&self) -> (r: Vec<u8>)
        ensures
            r@ == self.encoding(),
    {
        let mut out: Vec<u8> = Vec::new();
        match self {
            CertData::Reference(auth, id, issuer, max_share) => {
                out.push(0u8);
                write_auth(&mut out, auth);
                id.encode_id(&mut out);
                push_all(&mut out, issuer.bytes.as_slice());
                push_u32_le(&mut out, *max_share);
                assert(out@ =~= first_payload(*auth, id.id_bytes(), *issuer, *max_share));
            },
            CertData::Signature(auth, prev) => {
                out.push(1u8);
                write_auth(&mut out, auth);
                push_all(&mut out, prev.bytes.as_slice());
                assert(out@ =~= next_payload(*auth, *prev));
            },
        }
        out
    }
}

fn write_auth(out: &mut Vec<u8>, auth: &Authorization)
    ensures
        final(out)@ == old(out)@ + auth_bytes(*auth),
{
    push_u64_le(out, auth.capability.actions);
    push_u64_le(out, auth.capability.share);
    push_all(out, auth.subject.bytes.as_slice());
    assert(out@ =~= old(out)@ + auth_bytes(*auth));
}

/// An object reference: an id, the root issuer's key, the bound on the
/// number of delegations, and the chain of certificates.
#[derive(Clone, Debug)]
pub struct Reference<Id> {
    pub id: Id,
    pub issuer: PublicKey,
    pub max_share: u32,
    pub certs: Vec<Certificate>,
}

/// A reference as a mathematical value.
pub struct RefView<Id> {
    pub id: Id,
    pub issuer: PublicKey,
    pub max_share: u32,
    pub certs: Seq<Certificate>,
}

impl<Id> View for Reference<Id> {
    type V = RefView<Id>;

    open spec fn view(&self) -> RefView<Id> {
        RefView { id: self.id, issuer: self.issuer, max_share: self.max_share, certs: self.certs@ }
    }
}

impl<Id: ObjectId> RefView<Id> {
    /// The key that must have signed certificate `i`.
    pub open spec fn signer_at(self, i: int) -> PublicKey {
        if i == 0 {
            self.issuer
        } else {
            self.certs[i - 1].auth.subject
        }
    }

    /// The payload certificate `i` signs.
    pub open spec fn payload_at(self, i: int) -> Seq<u8> {
        if i == 0 {
            first_payload(self.certs[0].auth, self.id.id_bytes(), self.issuer, self.max_share)
        } else {
            next_payload(self.certs[i].auth, self.certs[i - 1].signature)
        }
    }

    /// Certificate `i` grants no more than its predecessor may share.
    pub open spec fn narrows_at(self, i: int) -> bool {
        i == 0 || self.certs[i].auth.capability.within(self.certs[i - 1].auth.capability)
    }

    /// The signature of certificate `i` verifies under its signer's key.
    pub open spec fn signed_at(self, i: int) -> bool {
        ed25519_accepts(self.signer_at(i).bytes@, self.payload_at(i), self.certs[i].signature.bytes@)
    }

    /// Certificate `i` is a sound link of the chain.
    pub open spec fn link_holds(self, i: int) -> bool {
        self.narrows_at(i) && self.signed_at(i)
    }

    /// The invariants of a valid reference: a non-empty chain of at most
    /// `max_share + 1` certificates, each narrowing its predecessor and
    /// signed by its predecessor's subject (the first by the issuer) over its
    /// positional payload.
    pub open spec fn chain_valid(self) -> bool {
        &&& 0 < self.certs.len() <= self.max_share + 1
        &&& forall|i: int| 0 <= i < self.certs.len() ==> #[trigger] self.link_holds(i)
    }

    /// The error certificate `i` raises when checked, if any.
    pub open spec fn fault_at(self, i: int) -> Option<Error> {
        if !self.narrows_at(i) {
            Some(Error::Capability)
        } else if !self.signed_at(i) {
            Some(Error::Signature(i as usize))
        } else {
            None
        }
    }

    /// The first error raised when checking certificates from `i` on.
    pub open spec fn faults_from(self, i: int) -> Result<(), Error>
        decreases self.certs.len() - i,
    {
        if i < 0 || i >= self.certs.len() {
            Ok(())
        } else {
            match self.fault_at(i) {
                Some(e) => Err(e),
                None => self.faults_from(i + 1),
            }
        }
    }

    /// What validating the reference for `subject` yields.
    pub open spec fn validation(self, subject: PublicKey) -> Result<(), Error> {
        if self.certs.len() > self.max_share + 1 {
            Err(Error::MaxShare)
        } else if self.certs.len() == 0 {
            Err(Error::Empty)
        } else if self.certs.last().auth.subject != subject {
            Err(Error::Subject)
        } else {
            self.faults_from(0)
        }
    }

    /// The check that refuses extending the chain with `auth`, signed by
    /// the key `signer`, if any.
    pub open spec fn sign_check(self, signer: PublicKey, auth: Authorization) -> Option<Error> {
        if self.certs.len() >= self.max_share + 1 {
            Some(Error::MaxShare)
        } else if self.certs.len() > 0 && self.certs.last().auth.subject != signer {
            Some(Error::Issuer)
        } else if self.certs.len() > 0 && !auth.capability.within(
            self.certs.last().auth.capability,
        ) {
            Some(Error::Capability)
        } else {
            None
        }
    }

    /// The payload the next certificate, granting `auth`, signs.
    pub open spec fn payload_for(self, auth: Authorization) -> Seq<u8> {
        if self.certs.len() == 0 {
            first_payload(auth, self.id.id_bytes(), self.issuer, self.max_share)
        } else {
            next_payload(auth, self.certs.last().signature)
        }
    }

    /// `next` is `self` with one more certificate granting `auth`, signed
    /// by `signer`.
    pub open spec fn extended_to(self, next: RefView<Id>, signer: Keypair, auth: Authorization) -> bool {
        &&& next.id == self.id
        &&& next.issuer == self.issuer
        &&& next.max_share == self.max_share
        &&& next.certs.len() == self.certs.len() + 1
        &&& next.certs.subrange(0, self.certs.len() as int) == self.certs
        &&& next.certs.last().auth == auth
        &&& next.certs.last().signature.bytes@ == signer.signature_on(self.payload_for(auth))
    }

    /// The first certificate granted to `subject` is at `i`.
    pub open spec fn first_grant(self, subject: PublicKey, i: int) -> bool {
        &&& 0 <= i < self.certs.len()
        &&& self.certs[i].auth.subject == subject
        &&& forall|j: int| 0 <= j < i ==> self.certs[j].auth.subject != subject
    }

    /// Some certificate is granted to `subject`.
    pub open spec fn grants(self, subject: PublicKey) -> bool {
        exists|i: int| 0 <= i < self.certs.len() && self.certs[i].auth.subject == subject
    }

    /// The index of the first certificate granted to `subject`.
    pub open spec fn grant_index(self, subject: PublicKey) -> int {
        choose|i: int| self.first_grant(subject, i)
    }

    /// The same reference with its first `n` certificates.
    pub open spec fn prefix(self, n: int) -> RefView<Id> {
        RefView { certs: self.certs.subrange(0, n), ..self }
    }

    /// The reference cut after the first certificate granted to `subject`.
    pub open spec fn subset_for(self, subject: PublicKey) -> Option<RefView<Id>> {
        if self.grants(subject) {
            Some(self.prefix(self.grant_index(subject) + 1))
        } else {
            None
        }
    }
}

/// The first grant to a subject is unique.
proof fn lemma_first_grant_unique<Id: ObjectId>(r: RefView<Id>, s: PublicKey, i: int)
    requires
        r.first_grant(s, i),
    ensures
        r.grants(s),
        r.grant_index(s) == i,
{
    assert(r.first_grant(s, r.grant_index(s)));
    let k = r.grant_index(s);
    if k < i {
        assert(r.certs[k].auth.subject != s);
    } else if k > i {
        assert(r.certs[i].auth.subject != s);
    }
}

/// A subject granted something below index `k` has a first grant.
proof fn lemma_first_grant_below<Id: ObjectId>(r: RefView<Id>, s: PublicKey, k: int)
    requires
        0 <= k <= r.certs.len(),
        exists|j: int| 0 <= j < k && r.certs[j].auth.subject == s,
    ensures
        exists|i: int| r.first_grant(s, i),
    decreases k,
{
    if exists|j: int| 0 <= j < k - 1 && r.certs[j].auth.subject == s {
        lemma_first_grant_below(r, s, k - 1);
    } else {
        assert(r.first_grant(s, k - 1));
    }
}

/// A subject that is granted something has a first grant.
proof fn lemma_grants_has_first<Id: ObjectId>(r: RefView<Id>, s: PublicKey)
    requires
        r.grants(s),
    ensures
        r.first_grant(s, r.grant_index(s)),
{
    lemma_first_grant_below(r, s, r.certs.len() as int);
    let i = choose|i: int| r.first_grant(s, i);
    lemma_first_grant_unique(r, s, i);
}

/// Two references that agree on their header and first `n` certificates
/// agree on the soundness of those links.
proof fn lemma_links_agree<Id: ObjectId>(a: RefView<Id>, b: RefView<Id>, n: int)
    requires
        a.id == b.id,
        a.issuer == b.issuer,
        a.max_share == b.max_share,
        0 <= n <= a.certs.len(),
        n <= b.certs.len(),
        forall|j: int| 0 <= j < n ==> a.certs[j] == b.certs[j],
    ensures
        forall|j: int| 0 <= j < n ==> a.link_holds(j) == b.link_holds(j),
{
    assert forall|j: int| 0 <= j < n implies a.link_holds(j) == b.link_holds(j) by {
        assert(a.certs[j] == b.certs[j]);
        if j > 0 {
            assert(a.certs[j - 1] == b.certs[j - 1]);
        }
        assert(a.payload_at(j) == b.payload_at(j));
        assert(a.signer_at(j) == b.signer_at(j));
    }
}

/// Checking from `i` on succeeds exactly when every link from `i` on holds.
proof fn lemma_faults_from_ok<Id: ObjectId>(r: RefView<Id>, i: int)
    requires
        0 <= i <= r.certs.len(),
    ensures
        r.faults_from(i) is Ok <==> forall|j: int| i <= j < r.certs.len() ==> r.link_holds(j),
    decreases r.certs.len() - i,
{
    if i < r.certs.len() {
        lemma_faults_from_ok(r, i + 1);
        assert(r.fault_at(i) is None <==> r.link_holds(i));
        if r.fault_at(i) is None {
            assert(r.faults_from(i) == r.faults_from(i + 1));
            if r.faults_from(i + 1) is Ok {
                assert forall|j: int| i <= j < r.certs.len() implies r.link_holds(j) by {
                    if j > i {
                        assert(i + 1 <= j);
                    }
                }
            }
        } else {
            assert(!r.link_holds(i));
        }
    }
}

/// Validating a reference for the subject of its last certificate succeeds
/// exactly when the reference satisfies the chain invariants.
pub proof fn lemma_validation_iff_valid<Id: ObjectId>(r: RefView<Id>)
    ensures
        r.validation(r.certs.last().auth.subject) is Ok <==> r.chain_valid(),
{
    if 0 < r.certs.len() <= r.max_share + 1 {
        lemma_faults_from_ok(r, 0);
    }
}

/// Cutting a valid reference after the first grant to a subject of its chain
/// gives a reference that validates for that subject.
pub proof fn lemma_subset_validates<Id: ObjectId>(r: RefView<Id>, subject: PublicKey)
    requires
        r.chain_valid(),
        r.grants(subject),
    ensures
        r.subset_for(subject) is Some,
        r.subset_for(subject).unwrap().validation(subject) is Ok,
        r.subset_for(subject).unwrap().chain_valid(),
{
    lemma_grants_has_first(r, subject);
    let i = r.grant_index(subject);
    let p = r.prefix(i + 1);
    lemma_links_agree(r, p, i + 1);
    assert(p.chain_valid());
    lemma_validation_iff_valid(p);
}

impl<Id: ObjectId> Reference<Id> {
    /// A reference to `id` issued by `issuer`, allowing `max_share`
    /// delegations, whose first certificate grants `auth`.
    pub fn new(id: Id, issuer: &Keypair, max_share: u32, auth: Authorization) -> (r: Result<
        Self,
        Error,
    >)
        ensures
            r is Ok,
            r matches Ok(rf) ==> {
                &&& rf.id == id
                &&& rf.issuer == issuer.public_view()
                &&& rf.max_share == max_share
                &&& rf.certs@.len() == 1
                &&& rf.certs@[0].auth == auth
                &&& rf.certs@[0].signature.bytes@ == issuer.signature_on(
                    first_payload(auth, id.id_bytes(), issuer.public_view(), max_share),
                )
                &&& rf@.chain_valid()
            },
    {
        let mut reference = Reference { id, issuer: issuer.public(), max_share, certs: Vec::new() };
        match reference.sign(issuer, auth) {
            Ok(()) => {
                proof {
                    let v = reference@;
                    assert(v.link_holds(0));
                    assert(v.chain_valid());
                }
                Ok(reference)
            },
            Err(e) => Err(e),
        }
    }

    /// The object id.
    pub fn id(&self) -> (r: &Id)
        ensures
            *r == self.id,
    {
        &self.id
    }

    /// The root issuer's key.
    pub fn issuer(&self) -> (r: &PublicKey)
        ensures
            *r == self.issuer,
    {
        &self.issuer
    }

    /// The chain of certificates.
    pub fn certs(&self) -> (r: &Vec<Certificate>)
        ensures
            r@ == self.certs@,
    {
        &self.certs
    }

    /// The payload for the next certificate granting `auth`, after `last`.
    fn cert_data(&self, auth: Authorization, last: Option<&Certificate>) -> (r: CertData<Id>)
        ensures
            last is None ==> r.encoding() == first_payload(
                auth,
                self.id.id_bytes(),
                self.issuer,
                self.max_share,
            ),
            last matches Some(c) ==> r.encoding() == next_payload(auth, c.signature),
    {
        match last {
            None => CertData::Reference(auth, self.id.copy_id(), self.issuer, self.max_share),
            Some(c) => CertData::Signature(auth, c.signature),
        }
    }

    /// Append a certificate granting `auth`, signed by `signer`. Refused,
    /// leaving the reference unchanged, when the chain is full, when
    /// `signer` is not the last certificate's subject, or when `auth` grants
    /// more than the last certificate may share.
    pub fn sign(&mut self, signer: &Keypair, auth: Authorization) -> (r: Result<(), Error>)
        ensures
            r == (match old(self)@.sign_check(signer.public_view(), auth) {
                Some(e) => Err(e),
                None => Ok(()),
            }),
            r is Err ==> final(self)@ == old(self)@,
            r is Ok ==> old(self)@.extended_to(final(self)@, *signer, auth),
            r is Ok && (old(self)@.certs.len() > 0 || old(self).issuer == signer.public_view())
                ==> final(self)@.link_holds(old(self)@.certs.len() as int),
            r is Ok && old(self)@.chain_valid() ==> final(self)@.chain_valid(),
    {
        let n = self.certs.len();
        if n as u64 >= self.max_share as u64 + 1 {
            return Err(Error::MaxShare);
        }
        let public = signer.public();
        if n > 0 {
            let last = &self.certs[n - 1];
            if !last.auth.subject.same_as(&public) {
                return Err(Error::Issuer);
            }
            if !auth.capability.is_subset(&last.auth.capability) {
                return Err(Error::Capability);
            }
        }
        let data = if n == 0 {
            self.cert_data(auth, None)
        } else {
            self.cert_data(auth, Some(&self.certs[n - 1]))
        };
        let payload = data.to_bytes();
        let signature = signer.sign(payload.as_slice());
        let ghost before = self@;
        self.certs.push(Certificate { auth, signature });
        proof {
            let after = self@;
            assert(after.certs.subrange(0, n as int) =~= before.certs);
            assert(after.payload_at(n as int) == before.payload_for(auth));
            lemma_links_agree(before, after, n as int);
        }
        Ok(())
    }

    /// The reference cut after the first certificate granted to `subject`;
    /// none when no certificate is granted to `subject`.
    pub fn subset(&self, subject: &PublicKey) -> (r: Option<Self>)
        ensures
            r is Some <==> self@.grants(*subject),
            r matches Some(s) ==> Some(s@) == self@.subset_for(*subject),
    {
        let n = self.certs.len();
        let mut i: usize = 0;
        while i < n
            invariant
                n == self.certs@.len(),
                i <= n,
                forall|j: int| 0 <= j < i ==> self.certs@[j].auth.subject != *subject,
            decreases n - i,
        {
            if self.certs[i].auth.subject.same_as(subject) {
                let mut certs: Vec<Certificate> = Vec::new();
                let mut k: usize = 0;
                while k <= i
                    invariant
                        i < n,
                        n == self.certs@.len(),
                        k <= i + 1,
                        certs@ == self.certs@.subrange(0, k as int),
                    decreases i + 1 - k,
                {
                    certs.push(self.certs[k]);
                    k = k + 1;
                    assert(certs@ =~= self.certs@.subrange(0, k as int));
                }
                let r = Reference {
                    id: self.id.copy_id(),
                    issuer: self.issuer,
                    max_share: self.max_share,
                    certs,
                };
                proof {
                    assert(self@.first_grant(*subject, i as int));
                    lemma_first_grant_unique(self@, *subject, i as int);
                    assert(r@.certs == self@.prefix(i + 1).certs);
                }
                return Some(r);
            }
            i = i + 1;
        }
        None
    }

    /// Re-issue the grant held by `subject` directly from `signer`: the
    /// chain is cut after the first certificate granted to `signer`, then
    /// extended by `signer` with the authorization first granted to
    /// `subject`. None when either key holds no grant or the extension is
    /// refused.
    pub fn shrink(&self, signer: &Keypair, subject: &PublicKey) -> (r: Option<Self>)
        ensures
            r is Some <==> {
                &&& self@.grants(*subject)
                &&& self@.grants(signer.public_view())
                &&& self@.subset_for(signer.public_view()).unwrap().sign_check(
                    signer.public_view(),
                    self@.certs[self@.grant_index(*subject)].auth,
                ) is None
            },
            r matches Some(s) ==> self@.subset_for(signer.public_view()).unwrap().extended_to(
                s@,
                *signer,
                self@.certs[self@.grant_index(*subject)].auth,
            ),
            r matches Some(s) ==> s.max_share == self.max_share && s.id == self.id && s.issuer
                == self.issuer,
            r matches Some(s) ==> s@.certs.last().auth.subject == *subject,
            r matches Some(s) ==> (self@.chain_valid() ==> s@.chain_valid()),
    {
        let n = self.certs.len();
        let mut i: usize = 0;
        while i < n
            invariant
                n == self.certs@.len(),
                i <= n,
                forall|j: int| 0 <= j < i ==> self.certs@[j].auth.subject != *subject,
            decreases n - i,
        {
            if self.certs[i].auth.subject.same_as(subject) {
                let auth = self.certs[i].auth;
                proof {
                    assert(self@.first_grant(*subject, i as int));
                    lemma_first_grant_unique(self@, *subject, i as int);
                }
                let public = signer.public();
                match self.subset(&public) {
                    Some(mut reference) => {
                        proof {
                            if self@.chain_valid() {
                                lemma_subset_validates(self@, public);
                            }
                        }
                        match reference.sign(signer, auth) {
                            Ok(()) => {
                                return Some(reference);
                            },
                            Err(_) => {
                                return None;
                            },
                        }
                    },
                    None => {
                        return None;
                    },
                }
            }
            i = i + 1;
        }
        None
    }
}

/// Width of a certificate on the wire: capability, subject, signature.
pub const CERT_WIRE_SIZE: usize = 112;

/// A certificate on the wire: its authorization, then the raw signature.
pub open spec fn cert_bytes(c: Certificate) -> Seq<u8> {
    auth_bytes(c.auth) + c.signature.bytes@
}

/// Certificates on the wire, one after the other.
pub open spec fn certs_bytes(certs: Seq<Certificate>) -> Seq<u8>
    decreases certs.len(),
{
    if certs.len() == 0 {
        Seq::empty()
    } else {
        certs_bytes(certs.drop_last()) + cert_bytes(certs.last())
    }
}

proof fn lemma_certs_bytes_push(certs: Seq<Certificate>, c: Certificate)
    ensures
        certs_bytes(certs.push(c)) == certs_bytes(certs) + cert_bytes(c),
{
    assert(certs.push(c).drop_last() =~= certs);
}

proof fn lemma_certs_bytes_len(certs: Seq<Certificate>)
    ensures
        certs_bytes(certs).len() == CERT_WIRE_SIZE * certs.len(),
    decreases certs.len(),
{
    if certs.len() > 0 {
        lemma_certs_bytes_len(certs.drop_last());
    }
}

impl<Id: ObjectId> RefView<Id> {
    /// The reference on the wire: id, raw issuer key, `max_share`, the
    /// number of certificates, then the certificates.
    pub open spec fn wire_bytes(self) -> Seq<u8> {
        self.id.id_bytes() + self.issuer.bytes@ + u32_le(self.max_share) + u64_le(
            self.certs.len() as u64,
        ) + certs_bytes(self.certs)
    }
}

/// Whether `b` has the shape of a reference on the wire: a header, then
/// exactly as many certificates as the header counts.
pub open spec fn wire_decodable<Id: ObjectId>(b: Seq<u8>) -> bool {
    let head = Id::id_width() + 44;
    &&& b.len() >= head
    &&& b.len() - head == CERT_WIRE_SIZE * le_u64(b.subrange(head - 8, head as int))
}

/// Every reference with fewer than 2^64 certificates has the shape its
/// wire form is decoded by.
pub proof fn lemma_wire_decodable<Id: ObjectId>(r: RefView<Id>)
    requires
        r.certs.len() <= u64::MAX,
    ensures
        wire_decodable::<Id>(r.wire_bytes()),
{
    r.id.lemma_id_width();
    lemma_certs_bytes_len(r.certs);
    let w = Id::id_width() as int;
    let b = r.wire_bytes();
    let n = r.certs.len() as u64;
    assert(b.subrange(w + 36, w + 44) =~= u64_le(n));
    lemma_u64_le_round_trip(n);
}

proof fn lemma_cert_bytes_injective(a: Certificate, b: Certificate)
    requires
        cert_bytes(a) == cert_bytes(b),
    ensures
        a == b,
{
    let (x, y) = (cert_bytes(a), cert_bytes(b));
    assert(x.subrange(0, 8) =~= u64_le(a.auth.capability.actions));
    assert(y.subrange(0, 8) =~= u64_le(b.auth.capability.actions));
    assert(x.subrange(8, 16) =~= u64_le(a.auth.capability.share));
    assert(y.subrange(8, 16) =~= u64_le(b.auth.capability.share));
    lemma_u64_le_round_trip(a.auth.capability.actions);
    lemma_u64_le_round_trip(b.auth.capability.actions);
    lemma_u64_le_round_trip(a.auth.capability.share);
    lemma_u64_le_round_trip(b.auth.capability.share);
    assert(x.subrange(16, 48) =~= a.auth.subject.bytes@);
    assert(y.subrange(16, 48) =~= b.auth.subject.bytes@);
    assert(a.auth.subject.bytes =~= b.auth.subject.bytes);
    assert(x.subrange(48, 112) =~= a.signature.bytes@);
    assert(y.subrange(48, 112) =~= b.signature.bytes@);
    assert(a.signature.bytes =~= b.signature.bytes);
}

proof fn lemma_certs_bytes_injective(s: Seq<Certificate>, t: Seq<Certificate>)
    requires
        certs_bytes(s) == certs_bytes(t),
    ensures
        s == t,
    decreases s.len(),
{
    lemma_certs_bytes_len(s);
    lemma_certs_bytes_len(t);
    if s.len() > 0 {
        assert(t.len() > 0);
        lemma_certs_bytes_len(s.drop_last());
        lemma_certs_bytes_len(t.drop_last());
        let k = CERT_WIRE_SIZE * (s.len() - 1);
        let x = certs_bytes(s);
        assert(x.subrange(0, k) =~= certs_bytes(s.drop_last()));
        assert(x.subrange(k, x.len() as int) =~= cert_bytes(s.last()));
        assert(x.subrange(0, k) =~= certs_bytes(t.drop_last()));
        assert(x.subrange(k, x.len() as int) =~= cert_bytes(t.last()));
        lemma_certs_bytes_injective(s.drop_last(), t.drop_last());
        lemma_cert_bytes_injective(s.last(), t.last());
        assert(s =~= t.drop_last().push(t.last()));
        assert(t =~= t.drop_last().push(t.last()));
    } else {
        assert(s =~= t);
    }
}

/// Different references have different wire forms, so decoding the wire
/// form of a reference gives that reference back.
pub proof fn lemma_wire_injective<Id: ObjectId>(a: RefView<Id>, b: RefView<Id>)
    requires
        a.wire_bytes() == b.wire_bytes(),
    ensures
        a == b,
{
    a.id.lemma_id_width();
    b.id.lemma_id_width();
    let w = Id::id_width() as int;
    let x = a.wire_bytes();
    assert(x.subrange(0, w) =~= a.id.id_bytes());
    assert(x.subrange(0, w) =~= b.id.id_bytes());
    a.id.lemma_id_injective(&b.id);
    assert(x.subrange(w, w + 32) =~= a.issuer.bytes@);
    assert(x.subrange(w, w + 32) =~= b.issuer.bytes@);
    assert(a.issuer.bytes =~= b.issuer.bytes);
    assert(x.subrange(w + 32, w + 36) =~= u32_le(a.max_share));
    assert(x.subrange(w + 32, w + 36) =~= u32_le(b.max_share));
    lemma_u32_le_round_trip(a.max_share);
    lemma_u32_le_round_trip(b.max_share);
    assert(x.subrange(w + 44, x.len() as int) =~= certs_bytes(a.certs));
    assert(x.subrange(w + 44, x.len() as int) =~= certs_bytes(b.certs));
    lemma_certs_bytes_injective(a.certs, b.certs);
}

/// Read a certificate from its 112 wire bytes.
fn decode_cert(b: &[u8]) -> (r: Certificate)
    requires
        b@.len() == CERT_WIRE_SIZE,
    ensures
        cert_bytes(r) == b@,
{
    let actions = read_u64_le(&b[0..8]);
    let share = read_u64_le(&b[8..16]);
    let subject = PublicKey { bytes: array32(&b[16..48]) };
    let signature = Signature { bytes: array64(&b[48..112]) };
    proof {
        lemma_le_u64_inverse(b@.subrange(0, 8));
        lemma_le_u64_inverse(b@.subrange(8, 16));
        assert(b@.subrange(16, 48).subrange(0, 32) =~= b@.subrange(16, 48));
        assert(b@.subrange(48, 112).subrange(0, 64) =~= b@.subrange(48, 112));
    }
    let c = Certificate {
        auth: Authorization { capability: Capability { actions, share }, subject },
        signature,
    };
    assert(cert_bytes(c) =~= b@);
    c
}

impl<Id: ObjectId> Reference<Id> {
    /// The reference on the wire.
    pub fn to_bytes(&self) -> (r: Vec<u8>)
        ensures
            r@ == self@.wire_bytes(),
    {
        let mut out: Vec<u8> = Vec::new();
        self.id.encode_id(&mut out);
        push_all(&mut out, self.issuer.bytes.as_slice());
        push_u32_le(&mut out, self.max_share);
        push_u64_le(&mut out, self.certs.len() as u64);
        let ghost head = out@;
        let n = self.certs.len();
        let mut i: usize = 0;
        while i < n
            invariant
                n == self.certs@.len(),
                i <= n,
                out@ == head + certs_bytes(self.certs@.subrange(0, i as int)),
            decreases n - i,
        {
            let c = &self.certs[i];
            write_auth(&mut out, &c.auth);
            push_all(&mut out, c.signature.bytes.as_slice());
            proof {
                lemma_certs_bytes_push(self.certs@.subrange(0, i as int), *c);
                assert(self.certs@.subrange(0, i as int).push(*c) =~= self.certs@.subrange(
                    0,
                    i + 1,
                ));
            }
            i = i + 1;
            assert(out@ =~= head + certs_bytes(self.certs@.subrange(0, i as int)));
        }
        assert(self.certs@.subrange(0, n as int) =~= self.certs@);
        assert(out@ =~= self@.wire_bytes());
        out
    }

    /// The reference whose wire form is `b`; none when `b` does not have
    /// that shape. Decoding checks nothing else: the result must be
    /// validated before use.
    pub fn from_bytes(b: &[u8]) -> (r: Option<Self>)
        ensures
            r is Some <==> wire_decodable::<Id>(b@),
            r matches Some(x) ==> x@.wire_bytes() == b@,
    {
        let w = Id::width();
        if b.len() < w || b.len() - w < 44 {
            return None;
        }
        let head = w + 44;
        let id = Id::decode_id(&b[0..w]);
        let issuer = PublicKey { bytes: array32(&b[w..w + 32]) };
        let max_share = read_u32_le(&b[w + 32..w + 36]);
        let n = read_u64_le(&b[w + 36..head]);
        let rest = b.len() - head;
        let count = rest / CERT_WIRE_SIZE;
        if count as u64 != n || count * CERT_WIRE_SIZE != rest {
            proof {
                if rest == CERT_WIRE_SIZE * n {
                    assert(rest / CERT_WIRE_SIZE == n) by (nonlinear_arith)
                        requires
                            rest == CERT_WIRE_SIZE * n,
                    ;
                }
            }
            return None;
        }
        let mut certs: Vec<Certificate> = Vec::new();
        let mut i: usize = 0;
        while i < count
            invariant
                head + CERT_WIRE_SIZE * count == b@.len(),
                b@.len() <= usize::MAX,
                i <= count,
                certs_bytes(certs@) == b@.subrange(head as int, head + CERT_WIRE_SIZE * i),
                certs@.len() == i,
            decreases count - i,
        {
            assert(CERT_WIRE_SIZE * i + CERT_WIRE_SIZE <= CERT_WIRE_SIZE * count) by (nonlinear_arith)
                requires
                    i < count,
            ;
            let start = head + CERT_WIRE_SIZE * i;
            let c = decode_cert(&b[start..start + CERT_WIRE_SIZE]);
            proof {
                lemma_certs_bytes_push(certs@, c);
            }
            certs.push(c);
            i = i + 1;
            assert(certs_bytes(certs@) =~= b@.subrange(head as int, head + CERT_WIRE_SIZE * i));
        }
        let r = Reference { id, issuer, max_share, certs };
        proof {
            lemma_le_u32_inverse(b@.subrange(w + 32, w + 36));
            lemma_le_u64_inverse(b@.subrange(w + 36, head as int));
            assert(b@.subrange(w as int, w + 32).subrange(0, 32) =~= b@.subrange(w as int, w + 32));
            assert(r@.wire_bytes() =~= b@);
        }
        Some(r)
    }
}

impl<Id: ObjectId> Validate for Reference<Id> {
    type Context = PublicKey;

    type Error = Error;

    open spec fn outcome(&self, subject: &PublicKey) -> Result<(), Error> {
        self@.validation(*subject)
    }

    fn validate(&self, subject: &PublicKey) -> (r: Result<(), Error>) {
        let n = self.certs.len();
        if n as u64 > self.max_share as u64 + 1 {
            return Err(Error::MaxShare);
        }
        if n == 0 {
            return Err(Error::Empty);
        }
        if !self.certs[n - 1].auth.subject.same_as(subject) {
            return Err(Error::Subject);
        }
        let mut i: usize = 0;
        while i < n
            invariant
                n == self.certs@.len(),
                0 < n <= self.max_share + 1,
                self.certs@.last().auth.subject == *subject,
                i <= n,
                self@.validation(*subject) == self@.faults_from(i as int),
            decreases n - i,
        {
            let cert = &self.certs[i];
            let data = if i == 0 {
                self.cert_data(cert.auth, None)
            } else {
                self.cert_data(cert.auth, Some(&self.certs[i - 1]))
            };
            if i > 0 && !cert.auth.capability.is_subset(&self.certs[i - 1].auth.capability) {
                return Err(Error::Capability);
            }
            let payload = data.to_bytes();
            let key = if i == 0 {
                self.issuer
            } else {
                self.certs[i - 1].auth.subject
            };
            if !key.verify(payload.as_slice(), &cert.signature) {
                return Err(Error::Signature(i));
            }
            assert(self@.fault_at(i as int) is None);
            i = i + 1;
        }
        Ok(())
    }
}

} // verus!
