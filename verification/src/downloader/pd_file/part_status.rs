use super::enums::PdFilePartStatus as PartState;
use super::error::PdFileError;
use crate::text::{decimal, push_decimal};
use vstd::prelude::*;

verus! {

/// The data is out of bounds.
#[derive(Clone, Debug)]
pub struct OutOfBoundsError<T> {
    /// Type name
    t: String,
    /// the value
    v: T,
}

impl<T> OutOfBoundsError<T> {
    pub fn new(t: &str, v: T) -> (r: Self)
        ensures
            r.kind_name() == t@,
            r.value() == v,
    {
        Self { t: String::from_str(t), v: v }
    }

    /// The name of the type whose bounds were passed.
    pub closed spec fn kind_name(&self) -> Seq<char> {
        self.t@
    }

    /// The value that did not fit.
    pub closed spec fn value(&self) -> T {
        self.v
    }
}

/// The message of an out-of-bounds error for an unsigned value.
pub open spec fn out_of_bounds_message(t: Seq<char>, v: nat) -> Seq<char> {
    "Failed to set type "@ + t + " with value "@ + decimal(v)
}

impl OutOfBoundsError<u32> {
    /// The message of the error: `Failed to set type <t> with value <v>`.
    pub fn message(&self) -> (r: String)
        ensures
            r@ == out_of_bounds_message(self.kind_name(), self.value() as nat),
    {
        proof {
            reveal_strlit("Failed to set type ");
            reveal_strlit(" with value ");
        }
        let mut s = String::from_str("Failed to set type ");
        s.append(self.t.as_str());
        s.append(" with value ");
        push_decimal(&mut s, self.v as u64);
        s
    }
}

/// Largest downloaded size (exclusive) that a part can record: 30 bits.
pub open spec fn part_size_limit() -> nat {
    0x4000_0000
}

/// The four bytes that record a part: two status bits on top of the first
/// byte, then the downloaded size in 30 bits, least significant bits first.
pub open spec fn part_bytes(status: nat, size: nat) -> Seq<u8> {
    seq![
        (status * 64 + size % 64) as u8,
        ((size / 64) % 256) as u8,
        ((size / 16384) % 256) as u8,
        ((size / 4194304) % 256) as u8,
    ]
}

/// The status bits of the first byte of a recorded part.
pub open spec fn status_bits(b0: u8) -> u8 {
    (b0 / 64) as u8
}

/// The downloaded size that four recorded bytes hold.
pub open spec fn size_of_bytes(b0: u8, b1: u8, b2: u8, b3: u8) -> nat {
    (b0 % 64) as nat + b1 as nat * 64 + b2 as nat * 16384 + b3 as nat * 4194304
}

/// The status of the each part in pd file
#[derive(Debug)]
pub struct PdFilePartStatus {
    /// The state of the download of this part.
    status: PartState,
    /// The downloaded size, below 2^30.
    downloaded_size: u32,
    /// Retry count
    retry_count: i64,
}

impl PdFilePartStatus {
    #[verifier::type_invariant]
    spec fn size_fits(self) -> bool {
        self.downloaded_size < 0x4000_0000
    }

    /// The state of the part.
    pub closed spec fn state(&self) -> PartState {
        self.status
    }

    /// The downloaded size of the part.
    pub closed spec fn size(&self) -> u32 {
        self.downloaded_size
    }

    /// The retry count of the part.
    pub closed spec fn retries(&self) -> i64 {
        self.retry_count
    }

    /// Create a new [PdFilePartStatus]
    pub fn new() -> (r: Self)
        ensures
            r.state() == PartState::Waited,
            r.size() == 0,
            r.retries() == 0,
    {
        Self { status: PartState::Waited, downloaded_size: 0, retry_count: 0 }
    }

    /// Returns the downloaded size of this part
    pub fn downloaded_size(&self) -> (r: u32)
        ensures
            r == self.size(),
            r < part_size_limit(),
    {
        proof {
            use_type_invariant(self);
        }
        self.downloaded_size
    }

    /// Returns the current retry count.
    pub fn retry_count(&self) -> (r: i64)
        ensures
            r == self.retries(),
    {
        self.retry_count
    }

    /// Returns the status of this part
    pub fn status(&self) -> (r: PartState)
        ensures
            r == self.state(),
    {
        self.status
    }

    /// Set the new downloaded size.
    /// Fails, changing nothing, when the size does not fit in 30 bits.
    pub fn set_downloaded_size(&mut self, new_size: u32) -> (r: Result<(), PdFileError>)
        ensures
            (new_size < part_size_limit()) <==> r is Ok,
            r is Ok ==> final(self).size() == new_size,
            r is Err ==> final(self).size() == old(self).size(),
            r matches Err(e) ==> e matches PdFileError::String(m) && m@ == out_of_bounds_message(
                "u32"@,
                new_size as nat,
            ),
            final(self).state() == old(self).state(),
            final(self).retries() == old(self).retries(),
    {
        if new_size < 0x4000_0000 {
            self.downloaded_size = new_size;
            Ok(())
        } else {
            proof {
                reveal_strlit("u32");
            }
            let e = OutOfBoundsError::new("u32", new_size);
            Err(PdFileError::String(e.message()))
        }
    }

    /// Set the new retry count.
    pub fn set_retry_count(&mut self, count: i64)
        ensures
            final(self).retries() == count,
            final(self).state() == old(self).state(),
            final(self).size() == old(self).size(),
    {
        proof {
            use_type_invariant(&*self);
        }
        self.retry_count = count;
    }

    /// Set the status of this part. Every status fits in the two status bits.
    pub fn set_status(&mut self, status: PartState) -> (r: Result<(), PdFileError>)
        ensures
            r is Ok,
            final(self).state() == status,
            final(self).size() == old(self).size(),
            final(self).retries() == old(self).retries(),
    {
        proof {
            use_type_invariant(&*self);
        }
        self.status = status;
        Ok(())
    }

    /// Returns true if the download is waited
    pub fn is_waited(&self) -> (r: bool)
        ensures
            r == (self.state() == PartState::Waited),
    {
        self.status.is_waited()
    }

    /// Returns true if the download is started
    pub fn is_downloading(&self) -> (r: bool)
        ensures
            r == (self.state() == PartState::Downloading),
    {
        self.status.is_downloading()
    }

    /// Returns true if the download is completed.
    pub fn is_downloaded(&self) -> (r: bool)
        ensures
            r == (self.state() == PartState::Downloaded),
    {
        self.status.is_downloaded()
    }

    /// Create a new instance of the [PdFilePartStatus] from bytes.
    /// * `bytes` - The data
    /// * `offset` - The offset of the needed data
    ///
    /// Fails when fewer than 4 bytes are there, or when the status bits hold
    /// no status. The retry count starts at 0.
    pub fn from_bytes(bytes: &[u8], offset: usize) -> (r: Result<Self, PdFileError>)
        requires
            offset <= bytes@.len(),
        ensures
            r is Ok <==> (bytes@.len() - offset >= 4 && PartState::spec_from_int(
                status_bits(bytes@[offset as int]),
            ) is Some),
            bytes@.len() - offset < 4 ==> (r matches Err(PdFileError::String(m)) && m@
                == "At least 4 bytes is needed."@),
            bytes@.len() - offset >= 4 && PartState::spec_from_int(
                status_bits(bytes@[offset as int]),
            ) is None ==> (r matches Err(PdFileError::String(m)) && m@
                == "Invalid pd file: the status of a part is unknown."@),
            r matches Ok(p) ==> {
                &&& Some(p.state()) == PartState::spec_from_int(status_bits(bytes@[offset as int]))
                &&& p.size() as nat == size_of_bytes(
                    bytes@[offset as int],
                    bytes@[offset + 1],
                    bytes@[offset + 2],
                    bytes@[offset + 3],
                )
                &&& p.retries() == 0
            },
    {
        if bytes.len() - offset < 4 {
            return Err(PdFileError::from_str("At least 4 bytes is needed."));
        }
        let b0 = bytes[offset];
        let b1 = bytes[offset + 1];
        let b2 = bytes[offset + 2];
        let b3 = bytes[offset + 3];
        let st = (b0 & 0xC0) / 0x40;
        assert((b0 & 0xC0) / 0x40 == b0 / 64) by (bit_vector);
        let status = match PartState::from_int(st) {
            Some(s) => s,
            None => {
                return Err(PdFileError::from_str("Invalid pd file: the status of a part is unknown."));
            },
        };
        assert((b0 & 0x3f) == b0 % 64) by (bit_vector);
        let mut ds: u32 = (b0 & 0x3f) as u32;
        ds = ds + (b1 as u32) * 0x40;
        ds = ds + (b2 as u32) * 0x4000;
        ds = ds + (b3 as u32) * 0x40_0000;
        Ok(Self { status, downloaded_size: ds, retry_count: 0 })
    }

    /// Get bytes
    pub fn to_bytes(&self) -> (r: Vec<u8>)
        ensures
            r@ == part_bytes(self.state().spec_int() as nat, self.size() as nat),
    {
        let mut data = Vec::new();
        self.write_to(&mut data);
        assert(data@ =~= part_bytes(self.state().spec_int() as nat, self.size() as nat));
        data
    }

    /// Append the four bytes of this part to `writer`.
    pub fn write_to(&self, writer: &mut Vec<u8>)
        ensures
            final(writer)@ == old(writer)@ + part_bytes(
                self.state().spec_int() as nat,
                self.size() as nat,
            ),
    {
        proof {
            use_type_invariant(self);
        }
        let ds = self.downloaded_size;
        let st = self.status.int_value();
        assert(st < 4);
        let low: u8 = (ds & 0x3f) as u8;
        assert((ds & 0x3f) == ds % 64) by (bit_vector);
        let b0: u8 = st * 0x40 + low;
        let b1: u8 = ((ds & 0x3fc0) / 0x40) as u8;
        let b2: u8 = ((ds & 0x3f_c000) / 0x4000) as u8;
        let b3: u8 = ((ds & 0x3fc0_0000) / 0x40_0000) as u8;
        assert(((ds & 0x3fc0) / 0x40) == (ds / 64) % 256) by (bit_vector);
        assert(((ds & 0x3f_c000) / 0x4000) == (ds / 16384) % 256) by (bit_vector);
        assert(((ds & 0x3fc0_0000) / 0x40_0000) == (ds / 4194304) % 256) by (bit_vector);
        let ghost before = writer@;
        writer.push(b0);
        writer.push(b1);
        writer.push(b2);
        writer.push(b3);
        assert(writer@ =~= before + part_bytes(st as nat, ds as nat));
    }
}

/// Writing a part and reading it back gives the same status and downloaded size.
pub proof fn lemma_part_bytes_roundtrip(status: PartState, size: nat)
    requires
        size < part_size_limit(),
    ensures
        ({
            let b = part_bytes(status.spec_int() as nat, size);
            &&& PartState::spec_from_int(status_bits(b[0])) == Some(status)
            &&& size_of_bytes(b[0], b[1], b[2], b[3]) == size
        }),
{
    let st = status.spec_int();
    let s = size as u32;
    assert(s < 0x4000_0000);
    assert((((st as u32) * 64 + s % 64) as u8) / 64 == st && (((st as u32) * 64 + s % 64) as u8)
        % 64 == s % 64) by (bit_vector)
        requires
            st < 4,
            s < 0x4000_0000,
    ;
    assert(s == (s % 64) + ((s / 64) % 256) * 64 + ((s / 16384) % 256) * 16384 + ((s / 4194304)
        % 256) * 4194304) by (bit_vector)
        requires
            s < 0x4000_0000,
    ;
}

/// Reading four bytes whose status bits hold a status and writing the part
/// back gives the same four bytes.
pub proof fn lemma_bytes_part_roundtrip(b0: u8, b1: u8, b2: u8, b3: u8)
    requires
        PartState::spec_from_int(status_bits(b0)) is Some,
    ensures
        size_of_bytes(b0, b1, b2, b3) < part_size_limit(),
        part_bytes(status_bits(b0) as nat, size_of_bytes(b0, b1, b2, b3)) == seq![b0, b1, b2, b3],
{
    let n = size_of_bytes(b0, b1, b2, b3);
    assert(((b0 % 64) as u32 + (b1 as u32) * 64 + (b2 as u32) * 16384 + (b3 as u32) * 4194304)
        < 0x4000_0000) by (bit_vector);
    let s: u32 = ((b0 % 64) as u32 + (b1 as u32) * 64 + (b2 as u32) * 16384 + (b3 as u32)
        * 4194304) as u32;
    assert(s as nat == n);
    assert(((b0 / 64) as u32 * 64 + s % 64) as u8 == b0 && ((s / 64) % 256) as u8 == b1 && ((s
        / 16384) % 256) as u8 == b2 && ((s / 4194304) % 256) as u8 == b3) by (bit_vector)
        requires
            s == (b0 % 64) as u32 + (b1 as u32) * 64 + (b2 as u32) * 16384 + (b3 as u32) * 4194304,
    ;
    assert(part_bytes(status_bits(b0) as nat, n) =~= seq![b0, b1, b2, b3]);
}

} // verus!
