use std::cmp::Ordering;
use vstd::prelude::*;

verus! {

/// Version of the pd file
#[derive(Clone, Copy, Debug, Eq, Ord)]
pub struct PdFileVersion {
    /// Major verson
    major: u8,
    /// Minor version
    minor: u8,
}

/// The order of two versions: by major version first, then by minor version.
pub open spec fn version_order(a: (u8, u8), b: (u8, u8)) -> Ordering {
    if a.0 < b.0 {
        Ordering::Less
    } else if a.0 > b.0 {
        Ordering::Greater
    } else if a.1 < b.1 {
        Ordering::Less
    } else if a.1 > b.1 {
        Ordering::Greater
    } else {
        Ordering::Equal
    }
}

/// The version that the bytes at `offset` hold, if at least two bytes are there.
pub open spec fn version_at(bytes: Seq<u8>, offset: int) -> Option<(u8, u8)> {
    if bytes.len() - offset < 2 {
        None
    } else {
        Some((bytes[offset], bytes[offset + 1]))
    }
}

/// Whether this program reads a pd file of a version: no newer than 1.0.
pub open spec fn version_supported(v: (u8, u8)) -> bool {
    v.0 < 1 || (v.0 == 1 && v.1 == 0)
}

impl View for PdFileVersion {
    type V = (u8, u8);

    closed spec fn view(&self) -> (u8, u8) {
        (self.major, self.minor)
    }
}

impl PdFileVersion {
    /// Create a new instance of the [PdFileVersion]
    /// * `major` - major version
    /// * `minor` - minor version
    pub fn new(major: u8, minor: u8) -> (r: Self)
        ensures
            r@ == (major, minor),
    {
        Self { major, minor }
    }

    /// Returns the major version.
    pub fn major(&self) -> (r: u8)
        ensures
            r == self@.0,
    {
        self.major
    }

    /// Returns the minor version.
    pub fn minor(&self) -> (r: u8)
        ensures
            r == self@.1,
    {
        self.minor
    }

    /// Create a new instance of the [PdFileVersion] from bytes.
    /// * `bytes` - The data
    /// * `offset` - The offset of the needed data
    ///
    /// Returns a new instance if succeed otherwise a Error because the data is less than 2 bytes.
    pub fn from_bytes(bytes: &[u8], offset: usize) -> (r: Result<Self, ()>)
        requires
            offset <= bytes@.len(),
        ensures
            version_at(bytes@, offset as int) is None <==> r is Err,
            r matches Ok(v) ==> Some(v@) == version_at(bytes@, offset as int),
    {
        if bytes.len() - offset < 2 {
            Err(())
        } else {
            Ok(Self::new(bytes[offset], bytes[offset + 1]))
        }
    }

    /// Get version bytes
    pub fn to_bytes(&self) -> (r: Vec<u8>)
        ensures
            r@ == seq![self@.0, self@.1],
    {
        let mut data = Vec::new();
        data.push(self.major);
        data.push(self.minor);
        data
    }

    /// Append the version bytes to `writer`.
    pub fn write_to(&self, writer: &mut Vec<u8>)
        ensures
            final(writer)@ == old(writer)@ + seq![self@.0, self@.1],
    {
        writer.push(self.major);
        writer.push(self.minor);
    }

    /// Whether this program can read a pd file of this version: no newer than 1.0.
    pub fn is_supported(&self) -> (r: bool)
        ensures
            r == version_supported(self@),
    {
        self.major < 1 || (self.major == 1 && self.minor == 0)
    }

    /// Compares two versions by major version first, then by minor version.
    pub fn compare(&self, other: &Self) -> (r: Ordering)
        ensures
            r == version_order(self@, other@),
    {
        if self.major < other.major {
            Ordering::Less
        } else if self.major > other.major {
            Ordering::Greater
        } else if self.minor < other.minor {
            Ordering::Less
        } else if self.minor > other.minor {
            Ordering::Greater
        } else {
            Ordering::Equal
        }
    }

    /// Compares this version with the version stored at the start of `bytes`;
    /// `None` if fewer than two bytes are given.
    pub fn compare_bytes(&self, bytes: &[u8]) -> (r: Option<Ordering>)
        ensures
            r == (match version_at(bytes@, 0) {
                Some(v) => Some(version_order(self@, v)),
                None => None,
            }),
    {
        match Self::from_bytes(bytes, 0) {
            Ok(v) => Some(self.compare(&v)),
            Err(_) => None,
        }
    }

    /// Whether the bytes at the start of `bytes` hold this version.
    /// False if fewer than two bytes are given.
    pub fn eq_bytes(&self, bytes: &[u8]) -> (r: bool)
        ensures
            r == (version_at(bytes@, 0) == Some(self@)),
    {
        match Self::from_bytes(bytes, 0) {
            Ok(v) => v.major == self.major && v.minor == self.minor,
            Err(_) => false,
        }
    }
}

impl PartialEq for PdFileVersion {
    fn eq(&self, other: &Self) -> (r: bool) {
        self.major == other.major && self.minor == other.minor
    }
}

impl vstd::std_specs::cmp::PartialEqSpecImpl for PdFileVersion {
    open spec fn obeys_eq_spec() -> bool {
        true
    }

    open spec fn eq_spec(&self, other: &Self) -> bool {
        self@ == other@
    }
}

impl PartialOrd for PdFileVersion {
    fn partial_cmp(&self, other: &Self) -> (r: Option<Ordering>) {
        Some(self.compare(other))
    }
}

impl vstd::std_specs::cmp::PartialOrdSpecImpl for PdFileVersion {
    open spec fn obeys_partial_cmp_spec() -> bool {
        true
    }

    open spec fn partial_cmp_spec(&self, other: &Self) -> Option<Ordering> {
        Some(version_order(self@, other@))
    }
}

/// A version equals a byte array whose first two bytes hold it.
impl<const N: usize> PartialEq<[u8; N]> for PdFileVersion {
    fn eq(&self, other: &[u8; N]) -> (r: bool) {
        self.eq_bytes(other.as_slice())
    }
}

impl<const N: usize> vstd::std_specs::cmp::PartialEqSpecImpl<[u8; N]> for PdFileVersion {
    open spec fn obeys_eq_spec() -> bool {
        true
    }

    open spec fn eq_spec(&self, other: &[u8; N]) -> bool {
        version_at(other@, 0) == Some(self@)
    }
}

/// A version is ordered against a byte array by the version its first two
/// bytes hold, and is not comparable with a shorter array.
impl<const N: usize> PartialOrd<[u8; N]> for PdFileVersion {
    fn partial_cmp(&self, other: &[u8; N]) -> (r: Option<Ordering>) {
        self.compare_bytes(other.as_slice())
    }
}

impl<const N: usize> vstd::std_specs::cmp::PartialOrdSpecImpl<[u8; N]> for PdFileVersion {
    open spec fn obeys_partial_cmp_spec() -> bool {
        true
    }

    open spec fn partial_cmp_spec(&self, other: &[u8; N]) -> Option<Ordering> {
        match version_at(other@, 0) {
            Some(v) => Some(version_order(self@, v)),
            None => None,
        }
    }
}

/// A version equals a byte vector whose first two bytes hold it.
impl PartialEq<Vec<u8>> for PdFileVersion {
    fn eq(&self, other: &Vec<u8>) -> (r: bool) {
        self.eq_bytes(other.as_slice())
    }
}

impl vstd::std_specs::cmp::PartialEqSpecImpl<Vec<u8>> for PdFileVersion {
    open spec fn obeys_eq_spec() -> bool {
        true
    }

    open spec fn eq_spec(&self, other: &Vec<u8>) -> bool {
        version_at(other@, 0) == Some(self@)
    }
}

/// A version is ordered against a byte vector by the version its first two
/// bytes hold, and is not comparable with a shorter vector.
impl PartialOrd<Vec<u8>> for PdFileVersion {
    fn partial_cmp(&self, other: &Vec<u8>) -> (r: Option<Ordering>) {
        self.compare_bytes(other.as_slice())
    }
}

impl vstd::std_specs::cmp::PartialOrdSpecImpl<Vec<u8>> for PdFileVersion {
    open spec fn obeys_partial_cmp_spec() -> bool {
        true
    }

    open spec fn partial_cmp_spec(&self, other: &Vec<u8>) -> Option<Ordering> {
        match version_at(other@, 0) {
            Some(v) => Some(version_order(self@, v)),
            None => None,
        }
    }
}

/// A version equals a byte slice whose first two bytes hold it.
impl PartialEq<[u8]> for PdFileVersion {
    fn eq(&self, other: &[u8]) -> (r: bool) {
        self.eq_bytes(other)
    }
}

impl vstd::std_specs::cmp::PartialEqSpecImpl<[u8]> for PdFileVersion {
    open spec fn obeys_eq_spec() -> bool {
        true
    }

    open spec fn eq_spec(&self, other: &[u8]) -> bool {
        version_at(other@, 0) == Some(self@)
    }
}

/// A version is ordered against a byte slice by the version its first two
/// bytes hold, and is not comparable with a shorter slice.
impl PartialOrd<[u8]> for PdFileVersion {
    fn partial_cmp(&self, other: &[u8]) -> (r: Option<Ordering>) {
        self.compare_bytes(other)
    }
}

impl vstd::std_specs::cmp::PartialOrdSpecImpl<[u8]> for PdFileVersion {
    open spec fn obeys_partial_cmp_spec() -> bool {
        true
    }

    open spec fn partial_cmp_spec(&self, other: &[u8]) -> Option<Ordering> {
        match version_at(other@, 0) {
            Some(v) => Some(version_order(self@, v)),
            None => None,
        }
    }
}

/// Versions are ordered as the pairs of their major and minor versions,
/// lexicographically.
pub proof fn lemma_version_order_lexicographic(a: (u8, u8), b: (u8, u8))
    ensures
        (version_order(a, b) == Ordering::Less) <==> (a.0 < b.0 || (a.0 == b.0 && a.1 < b.1)),
        (version_order(a, b) == Ordering::Greater) <==> (a.0 > b.0 || (a.0 == b.0 && a.1 > b.1)),
        (version_order(a, b) == Ordering::Equal) <==> (a.0 == b.0 && a.1 == b.1),
{
}

/// Comparing a version with bytes compares it with the version their first
/// two bytes hold, and gives nothing for fewer than two bytes.
pub proof fn lemma_version_bytes_order(bytes: Seq<u8>)
    ensures
        bytes.len() < 2 ==> version_at(bytes, 0) is None,
        bytes.len() >= 2 ==> version_at(bytes, 0) == Some((bytes[0], bytes[1])),
{
}

/// The bytes of a version give the version back.
pub proof fn lemma_version_bytes_roundtrip(v: PdFileVersion)
    ensures
        version_at(seq![v@.0, v@.1], 0) == Some(v@),
{
}

/// The versions this program reads are those that are not newer than 1.0.
pub proof fn lemma_version_supported_order(v: (u8, u8))
    ensures
        version_supported(v) <==> version_order(v, (1u8, 0u8)) != Ordering::Greater,
{
}

/// The order of versions is a total order: antisymmetric and transitive,
/// and two versions compare equal exactly when they are the same.
pub proof fn lemma_version_order_total(a: (u8, u8), b: (u8, u8), c: (u8, u8))
    ensures
        (version_order(a, b) == Ordering::Equal) <==> (a == b),
        version_order(a, b) == Ordering::Less <==> version_order(b, a) == Ordering::Greater,
        version_order(a, b) == Ordering::Less && version_order(b, c) == Ordering::Less
            ==> version_order(a, c) == Ordering::Less,
{
}

} // verus!
