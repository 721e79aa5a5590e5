//! The change model: sparse patch records for entities and their
//! sub-elements, the `Change` record that links them into the DAG, and the
//! self-identifying `ChangeMessage` wrapper whose content identifier is
//! the SHA-256 digest of the change's canonical encoding.

use vstd::prelude::*;
use crate::digest::Digestable;
use crate::digest::canon_seq_le;
use crate::digest::id_eq;
use crate::digest::sha256_digest;
use crate::digest::sha256_of;

verus! {

/// A sparse patch for one sub-element: an absent field leaves the element
/// unchanged, a present one replaces the value.
#[derive(Clone, Debug)]
pub struct ElementChange<P: Digestable> {
    pub id: u64,
    pub variant: Option<u16>,
    pub position: Option<P>,
}

impl<P: Digestable> Digestable for ElementChange<P> {
    open spec fn canon_le(&self) -> Seq<u8> {
        self.id.canon_le() + self.variant.canon_le() + self.position.canon_le()
    }

    fn update_le(&self, out: &mut Vec<u8>) {
        self.id.update_le(out);
        self.variant.update_le(out);
        self.position.update_le(out);
    }
}

/// A sparse patch for one entity. The `elements` field is doubly optional:
/// absent leaves the sub-element list untouched, present-and-absent clears
/// it, present-with-list replaces it.
#[derive(Clone, Debug)]
pub struct EntityChange<P: Digestable> {
    pub id: u64,
    pub ent_type: Option<String>,
    pub variant: Option<u8>,
    pub orientation: Option<u8>,
    pub base_position: Option<P>,
    pub elements: Option<Option<Vec<ElementChange<P>>>>,
}

impl<P: Digestable> Digestable for EntityChange<P> {
    open spec fn canon_le(&self) -> Seq<u8> {
        self.id.canon_le() + self.ent_type.canon_le() + self.variant.canon_le()
            + self.orientation.canon_le() + self.base_position.canon_le()
            + self.elements.canon_le()
    }

    fn update_le(&self, out: &mut Vec<u8>) {
        self.id.update_le(out);
        self.ent_type.update_le(out);
        self.variant.update_le(out);
        self.orientation.update_le(out);
        self.base_position.update_le(out);
        self.elements.update_le(out);
    }
}

/// An immutable change record: the content identifiers of its causal
/// parents, and the entity patches it carries, both in a fixed order.
#[derive(Clone, Debug)]
pub struct Change<P: Digestable> {
    pub parents: Vec<[u8; 32]>,
    pub changes: Vec<EntityChange<P>>,
}

impl<P: Digestable> Digestable for Change<P> {
    /// The parent list is hashed into an isolated sub-digest first, and
    /// that fixed-size result is folded into the outer encoding, so the
    /// outer digest depends on the parent list only through a constant-size
    /// contribution.
    open spec fn canon_le(&self) -> Seq<u8> {
        sha256_of(canon_seq_le(self.parents@)) + canon_seq_le(self.changes@)
    }

    fn update_le(&self, out: &mut Vec<u8>) {
        let mut inner: Vec<u8> = Vec::new();
        self.parents.update_le(&mut inner);
        let sub = sha256_digest(inner.as_slice());
        sub.update_le(out);
        self.changes.update_le(out);
    }
}

/// The content identifier of a change: the SHA-256 digest of its canonical
/// encoding.
pub open spec fn content_id_of<P: Digestable>(c: Change<P>) -> Seq<u8> {
    sha256_of(c.canon_le())
}

/// A change paired with its content identifier; the externally exchanged,
/// self-describing unit.
#[derive(Clone, Debug)]
pub struct ChangeMessage<P: Digestable> {
    pub change: Change<P>,
    pub sha256: [u8; 32],
}

impl<P: Digestable> ChangeMessage<P> {
    /// Wrap a change with its derived content identifier.
    pub fn from_change(c: Change<P>) -> (m: ChangeMessage<P>)
        ensures
            m.change == c,
            m.sha256@ == content_id_of(c),
    {
        let mut buf: Vec<u8> = Vec::new();
        c.update_le(&mut buf);
        let id = sha256_digest(buf.as_slice());
        ChangeMessage { change: c, sha256: id }
    }

    /// Whether the embedded identifier really is the digest of the change.
    /// A message received from outside should pass this check before it is
    /// trusted.
    pub fn verify(&self) -> (r: bool)
        ensures
            r == (self.sha256@ == content_id_of(self.change)),
    {
        let mut buf: Vec<u8> = Vec::new();
        self.change.update_le(&mut buf);
        let id = sha256_digest(buf.as_slice());
        id_eq(&self.sha256, &id)
    }
}

/// Structurally identical changes always derive the same content
/// identifier: the identifier is a function of the change's structure
/// alone.
pub proof fn lemma_digest_deterministic<P: Digestable>(c1: Change<P>, c2: Change<P>)
    requires
        c1 == c2,
    ensures
        content_id_of(c1) == content_id_of(c2),
{
}

/// Distinct content identifiers witness structurally distinct changes.
pub proof fn lemma_digest_distinguishes<P: Digestable>(c1: Change<P>, c2: Change<P>)
    requires
        content_id_of(c1) != content_id_of(c2),
    ensures
        c1 != c2,
{
}

/// An absent optional field and a present one never encode alike: the
/// leading presence tag differs.
pub proof fn lemma_option_canon_distinct<T: Digestable>(x: Option<T>, y: Option<T>)
    requires
        x is None,
        y is Some,
    ensures
        x.canon_le() != y.canon_le(),
{
    assert(x.canon_le()[0] == 0u8);
    assert(y.canon_le()[0] == 1u8);
}

} // verus!
