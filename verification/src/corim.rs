use crate::comid::{ExtensionMap, TaggedConciseMidTag, Text, Tstr, Uri, UuidType};
use crate::error::CodecError;
use crate::non_empty::NonEmptyVec;
use crate::tagged::Tagged;
use crate::triples::TaggedBytes;
use crate::value::Item;
use vstd::prelude::*;

verus! {

/// A point in time, in seconds.
pub type Time = i64;

/// A signed integer.
pub type Int = i64;

/// A byte string.
pub type Bytes = Vec<u8>;

/// An object identifier, in its binary form.
pub type OidType = Vec<u8>;

/// A manifest, signed or not.
pub type Corim = ConciseRimTypeChoice;

/// A signed manifest under its format tag.
pub type SignedCorim = TaggedCOSESign1Corim;

/// A manifest without a signature.
pub type UnsignedCorimMap = CorimMap;

/// An unsigned manifest under its format tag.
pub type TaggedUnsignedCorimMap = Tagged<CorimMap, 501>;

/// A signed manifest under its format tag.
pub type TaggedCOSESign1Corim = Tagged<COSESign1Corim, 18>;

/// A software-identity record under its format tag, carried as it is.
pub type TaggedConciseSwidTag = Tagged<Item, 505>;

/// A trust-list record under its format tag, carried as it is.
pub type TaggedConciseTlTag = Tagged<Item, 508>;

/// The name of an entity.
pub type EntityNameTypeChoice = Text;

/// Header parameters of the signing layer.
pub type CoseMap = ExtensionMap;

/// A digest: the algorithm's number and the digest's bytes.
#[derive(Debug, PartialEq, Eq)]
pub struct Digest {
    pub alg: Int,
    pub val: Bytes,
}

/// A manifest that is either unsigned or signed.
#[derive(Debug, PartialEq, Eq)]
pub enum ConciseRimTypeChoice {
    TaggedUnsignedCorimMap(TaggedUnsignedCorimMap),
    SignedCorim(SignedCorim),
}

impl ConciseRimTypeChoice {
    /// The format tag under which this manifest travels.
    pub fn tag(&self) -> (r: u64)
        ensures
            r == match *self {
                ConciseRimTypeChoice::TaggedUnsignedCorimMap(_) => 501u64,
                ConciseRimTypeChoice::SignedCorim(_) => 18u64,
            },
    {
        match self {
            ConciseRimTypeChoice::TaggedUnsignedCorimMap(m) => m.tag(),
            ConciseRimTypeChoice::SignedCorim(s) => s.tag(),
        }
    }
}

/// The manifest itself: its identifier, its records, and what surrounds
/// them.
#[derive(Debug, PartialEq, Eq)]
pub struct CorimMap {
    pub id: CorimIdTypeChoice,
    pub tags: NonEmptyVec<ConciseTagTypeChoice>,
    pub dependent_rims: Option<Vec<CorimLocatorMap>>,
    pub profile: Option<ProfileTypeChoice>,
    pub rim_validity: Option<ValidityMap>,
    pub entities: Option<NonEmptyVec<CorimEntityMap>>,
    pub extension: Option<CorimMapExtension>,
}

/// A manifest's identifier: text, or a universally unique identifier.
#[derive(Debug, PartialEq, Eq)]
pub enum CorimIdTypeChoice {
    Tstr(Tstr),
    Uuid(UuidType),
}

/// The records that a manifest can hold.
#[derive(Debug, PartialEq, Eq)]
pub enum ConciseTagTypeChoice {
    Swid(TaggedConciseSwidTag),
    Mid(TaggedConciseMidTag),
    Tl(TaggedConciseTlTag),
}

impl ConciseTagTypeChoice {
    /// The format tag under which this record travels.
    pub fn tag(&self) -> (r: u64)
        ensures
            r == match *self {
                ConciseTagTypeChoice::Swid(_) => 505u64,
                ConciseTagTypeChoice::Mid(_) => 506u64,
                ConciseTagTypeChoice::Tl(_) => 508u64,
            },
    {
        match self {
            ConciseTagTypeChoice::Swid(t) => t.tag(),
            ConciseTagTypeChoice::Mid(t) => t.tag(),
            ConciseTagTypeChoice::Tl(t) => t.tag(),
        }
    }
}

/// Where a manifest that this one depends on is found.
#[derive(Debug, PartialEq, Eq)]
pub struct CorimLocatorMap {
    pub href: NonEmptyVec<Uri>,
    pub thumbprint: Option<Digest>,
}

/// A profile, named by a resource identifier or by an object identifier.
#[derive(Debug, PartialEq, Eq)]
pub enum ProfileTypeChoice {
    Uri(Uri),
    OidType(OidType),
}

/// The time during which a manifest or a signature holds.
#[derive(Debug, Clone, Copy, PartialEq, Eq, Structural)]
pub struct ValidityMap {
    pub not_before: Option<Time>,
    pub not_after: Time,
}

/// An entity that stands behind a manifest, and in which role.
#[derive(Debug, PartialEq, Eq)]
pub struct CorimEntityMap {
    pub entity_name: Text,
    pub reg_id: Option<Uri>,
    pub role: CorimRoleTypeChoice,
    pub extension: Option<ExtensionMap>,
}

/// The roles of an entity towards a manifest.
#[derive(Debug, Clone, Copy, PartialEq, Eq, Structural)]
pub enum CorimRoleTypeChoice {
    ManifestCreator,
    ManifestSigner,
}

impl CorimRoleTypeChoice {
    /// The number that stands for each role on the wire.
    pub open spec fn code_of(self) -> i64 {
        match self {
            CorimRoleTypeChoice::ManifestCreator => 1,
            CorimRoleTypeChoice::ManifestSigner => 2,
        }
    }

    /// The number that stands for this role on the wire.
    pub fn code(&self) -> (r: i64)
        ensures
            r == self.code_of(),
    {
        match self {
            CorimRoleTypeChoice::ManifestCreator => 1,
            CorimRoleTypeChoice::ManifestSigner => 2,
        }
    }

    /// The role that a number stands for, if it stands for one.
    pub fn from_code(code: i64) -> (r: Result<Self, CodecError>)
        ensures
            code == 1 ==> r == Ok::<Self, CodecError>(CorimRoleTypeChoice::ManifestCreator),
            code == 2 ==> r == Ok::<Self, CodecError>(CorimRoleTypeChoice::ManifestSigner),
            code != 1 && code != 2 ==> (r matches Err(CodecError::NoMatchingVariant(errors))
                && errors@.len() == 0),
            r matches Ok(role) ==> role.code_of() == code,
    {
        if code == 1 {
            Ok(CorimRoleTypeChoice::ManifestCreator)
        } else if code == 2 {
            Ok(CorimRoleTypeChoice::ManifestSigner)
        } else {
            Err(CodecError::NoMatchingVariant(Vec::new()))
        }
    }
}

/// Extension data of a manifest, as raw bytes.
#[derive(Debug, PartialEq, Eq)]
pub struct CorimMapExtension {
    pub bytes: TaggedBytes,
}

/// A signed manifest: the headers, the manifest, and the signature over
/// the protected header and the manifest.
#[derive(Debug, PartialEq, Eq)]
pub struct COSESign1Corim {
    pub protected: ProtectedCorimHeaderMap,
    pub unprotected: Option<ExtensionMap>,
    pub payload: TaggedUnsignedCorimMap,
    pub signature: TaggedBytes,
}

/// The header that the signature protects.
#[derive(Debug, PartialEq, Eq)]
pub struct ProtectedCorimHeaderMap {
    pub alg: Int,
    pub content_type: String,
    pub kid: Bytes,
    pub corim_meta: CorimMetaMap,
    pub cose_map: Option<CoseMap>,
}

/// Who signed a manifest, and for how long the signature holds.
#[derive(Debug, PartialEq, Eq)]
pub struct CorimMetaMap {
    pub signer: CorimSignerMap,
    pub signature_validity: Option<ValidityMap>,
}

/// The entity that signed a manifest.
#[derive(Debug, PartialEq, Eq)]
pub struct CorimSignerMap {
    pub signer_name: EntityNameTypeChoice,
    pub signer_uri: Option<Uri>,
    pub extension: Option<CoseMap>,
}

} // verus!
