use super::enums::PdFilePartStatus as PartState;
use super::enums::{PdFileStatus, PdFileType};
use super::error::PdFileError;
use super::le::{le_bytes, le_value, push_le, read_le, lemma_le_roundtrip, lemma_le_bytes_len, lemma_pow256_values, lemma_le_value_bound, pow256};
use super::part_status::{
    lemma_bytes_part_roundtrip, lemma_part_bytes_roundtrip, part_bytes, part_size_limit,
    size_of_bytes, status_bits, PdFilePartStatus,
};
use super::version::{version_supported, PdFileVersion};
use vstd::prelude::*;
use vstd::utf8::*;

verus! {

/// The offset of the status in pd file
pub const STATUS_OFFSET: u64 = 10;

/// The offset of the file_size in pd file
pub const FILE_SIZE_OFFSET: u64 = 12;

/// The offset of the downloaded_file_size in pd file
pub const DOWNLOADED_FILE_SIZE_OFFSET: u64 = 20;

/// The length of the fixed part of a pd file, before the file name.
pub const HEADER_LEN: usize = 32;

/// The four bytes every pd file starts with.
pub open spec fn magic() -> Seq<u8> {
    seq![0x50u8, 0x44u8, 0xffu8, 0xffu8]
}

/// What a pd file records, and where it is kept.
pub struct PdFileModel {
    pub version: (u8, u8),
    pub need_saved: bool,
    pub file_name: Option<Seq<char>>,
    pub status: PdFileStatus,
    pub ftype: PdFileType,
    pub file_size: u64,
    pub downloaded_file_size: u64,
    pub part_size: u32,
    pub mem_only: bool,
    /// The state and downloaded size of each part.
    pub parts: Seq<(PartState, u32)>,
}

/// The number of parts of `part_size` bytes that cover `file_size` bytes.
pub open spec fn part_count(file_size: nat, part_size: nat) -> nat {
    if part_size == 0 {
        0
    } else {
        ((file_size + part_size - 1) / part_size as int) as nat
    }
}

/// The part size that a pd file records: zero in single thread mode.
pub open spec fn written_part_size(m: PdFileModel) -> u32 {
    if m.ftype == PdFileType::MultiThread {
        m.part_size
    } else {
        0
    }
}

/// Whether the parts are recorded after the file name: in multiple thread
/// mode with a known file size, and only if there are enough parts.
pub open spec fn parts_recorded(m: PdFileModel) -> bool {
    &&& m.ftype == PdFileType::MultiThread
    &&& m.file_size != 0
    &&& m.part_size != 0
    &&& part_count(m.file_size as nat, m.part_size as nat) <= m.parts.len()
}

/// The bytes of the first `k` parts.
pub open spec fn parts_bytes(parts: Seq<(PartState, u32)>, k: nat) -> Seq<u8>
    decreases k,
{
    if k == 0 || k > parts.len() {
        seq![]
    } else {
        parts_bytes(parts, (k - 1) as nat) + part_bytes(
            parts[k - 1].0.spec_int() as nat,
            parts[k - 1].1 as nat,
        )
    }
}

/// The fixed part of a pd file, followed by the encoded file name.
pub open spec fn header_bytes(m: PdFileModel, name: Seq<u8>) -> Seq<u8> {
    magic() + seq![m.version.0, m.version.1] + le_bytes(name.len() % 0x1_0000_0000, 4) + seq![
        m.status.spec_int(),
        m.ftype.spec_int(),
    ] + le_bytes(m.file_size as nat, 8) + le_bytes(m.downloaded_file_size as nat, 8) + le_bytes(
        written_part_size(m) as nat,
        4,
    ) + name
}

/// The bytes of a pd file with a file name.
pub open spec fn pd_bytes(m: PdFileModel) -> Seq<u8> {
    let name = encode_utf8(m.file_name.unwrap());
    header_bytes(m, name) + if parts_recorded(m) {
        parts_bytes(m.parts, part_count(m.file_size as nat, m.part_size as nat))
    } else {
        seq![]
    }
}

/// Why bytes are not a pd file.
#[derive(Clone, Copy, Debug, PartialEq, Eq, Structural)]
pub enum PdDecodeFailure {
    /// The data ends early.
    Eof,
    /// The data does not start with the magic words.
    NotPdFile,
    /// The pd file is of a newer version.
    Unsupported,
    /// A status or type byte holds no status or type.
    BadEnum,
    /// The file name is not UTF-8.
    BadUtf8,
}

/// Reading the parts one after another, from `start`: the first part that
/// ends early or holds no status stops the reading.
pub open spec fn parts_outcome(b: Seq<u8>, start: nat, k: nat) -> Result<
    Seq<(PartState, u32)>,
    PdDecodeFailure,
>
    decreases k,
{
    if k == 0 {
        Ok(seq![])
    } else {
        match parts_outcome(b, start, (k - 1) as nat) {
            Err(e) => Err(e),
            Ok(ps) => {
                let o = start + 4 * (k - 1);
                if b.len() < o + 4 {
                    Err(PdDecodeFailure::Eof)
                } else {
                    match PartState::spec_from_int(status_bits(b[o])) {
                        None => Err(PdDecodeFailure::BadEnum),
                        Some(st) => Ok(
                            ps.push((st, size_of_bytes(b[o], b[o + 1], b[o + 2], b[o + 3]) as u32)),
                        ),
                    }
                }
            },
        }
    }
}

/// What reading a pd file from its bytes gives: the fields in the order
/// they are read, the first failure stopping the reading.
pub open spec fn decode_outcome(b: Seq<u8>) -> Result<PdFileModel, PdDecodeFailure> {
    if b.len() < 4 {
        Err(PdDecodeFailure::Eof)
    } else if b.subrange(0, 4) != magic() {
        Err(PdDecodeFailure::NotPdFile)
    } else if b.len() < 6 {
        Err(PdDecodeFailure::Eof)
    } else if !version_supported((b[4], b[5])) {
        Err(PdDecodeFailure::Unsupported)
    } else if b.len() < 11 {
        Err(PdDecodeFailure::Eof)
    } else if PdFileStatus::spec_from_int(b[10]) is None {
        Err(PdDecodeFailure::BadEnum)
    } else if b.len() < 12 {
        Err(PdDecodeFailure::Eof)
    } else if PdFileType::spec_from_int(b[11]) is None {
        Err(PdDecodeFailure::BadEnum)
    } else if b.len() < 32 {
        Err(PdDecodeFailure::Eof)
    } else {
        let nl = le_value(b.subrange(6, 10));
        let status = PdFileStatus::spec_from_int(b[10]).unwrap();
        let ftype = PdFileType::spec_from_int(b[11]).unwrap();
        let file_size = le_value(b.subrange(12, 20));
        let downloaded = le_value(b.subrange(20, 28));
        let part_size = le_value(b.subrange(28, 32));
        if b.len() < 32 + nl {
            Err(PdDecodeFailure::Eof)
        } else if !valid_utf8(b.subrange(32, 32 + nl as int)) {
            Err(PdDecodeFailure::BadUtf8)
        } else {
            let k = if ftype == PdFileType::MultiThread && file_size != 0 && part_size != 0 {
                part_count(file_size, part_size)
            } else {
                0
            };
            match parts_outcome(b, 32 + nl, k) {
                Err(e) => Err(e),
                Ok(parts) => Ok(
                    PdFileModel {
                        version: (b[4], b[5]),
                        need_saved: false,
                        file_name: Some(decode_utf8(b.subrange(32, 32 + nl as int))),
                        status,
                        ftype,
                        file_size: file_size as u64,
                        downloaded_file_size: downloaded as u64,
                        part_size: part_size as u32,
                        mem_only: false,
                        parts,
                    },
                ),
            }
        }
    }
}

/// An error of a decode failure.
pub open spec fn error_matches(e: PdFileError, f: PdDecodeFailure) -> bool {
    match f {
        PdDecodeFailure::Eof => e is IoError,
        PdDecodeFailure::NotPdFile => e is InvalidPdFile,
        PdDecodeFailure::Unsupported => e is Unsupported,
        PdDecodeFailure::BadEnum => e is String,
        PdDecodeFailure::BadUtf8 => e is Utf8Error,
    }
}

/// Once reading the parts has failed, reading more parts fails the same way.
pub proof fn lemma_parts_outcome_err_sticks(b: Seq<u8>, start: nat, k1: nat, k2: nat)
    requires
        k1 <= k2,
        parts_outcome(b, start, k1) is Err,
    ensures
        parts_outcome(b, start, k2) == parts_outcome(b, start, k1),
    decreases k2,
{
    if k2 > k1 {
        lemma_parts_outcome_err_sticks(b, start, k1, (k2 - 1) as nat);
    }
}

/// std's `String::from_utf8`: the bytes as a string if they are UTF-8.
#[verifier::external_body]
fn string_from_utf8(bytes: Vec<u8>) -> (r: Result<String, std::string::FromUtf8Error>)
    ensures
        r is Ok <==> valid_utf8(bytes@),
        r matches Ok(s) ==> s@ == decode_utf8(bytes@),
{
    String::from_utf8(bytes)
}

/// std's `io::Error::from(ErrorKind::UnexpectedEof)`: the error of data that ends early.
#[verifier::external_body]
fn unexpected_eof() -> (r: std::io::Error) {
    std::io::Error::from(std::io::ErrorKind::UnexpectedEof)
}

/// The result when try opening pd file.
#[derive(Debug)]
pub enum PdFileResult {
    /// The pd file is not existed, and the new pd file is created.
    /// In this case, need download whole file.
    Created(PdFile),
    /// The pd file is not existed but the target file is existed.
    /// In most case, this means the download already completed.
    TargetExisted,
    /// The pd file is existed.
    /// In this case, can continue to download.
    ExistedOk(PdFile),
}

/// The pd file
#[derive(Debug)]
pub struct PdFile {
    /// The version of the current file.
    version: PdFileVersion,
    /// Needed to save to file.
    need_saved: bool,
    /// The file name
    file_name: Option<String>,
    /// The status of the downloaded file.
    status: PdFileStatus,
    /// The type of the downloader.
    ftype: PdFileType,
    /// The target size of the file. If unknown, set this to 0.
    file_size: u64,
    /// The size of the downloaded data.
    downloaded_file_size: u64,
    /// The size of the each part. Ignored in single thread mode.
    part_size: u32,
    /// Only stored in memory.
    mem_only: bool,
    /// The status of the each part.
    part_datas: Vec<PdFilePartStatus>,
}

impl View for PdFile {
    type V = PdFileModel;

    closed spec fn view(&self) -> PdFileModel {
        PdFileModel {
            version: self.version@,
            need_saved: self.need_saved,
            file_name: match self.file_name {
                Some(s) => Some(s@),
                None => None,
            },
            status: self.status,
            ftype: self.ftype,
            file_size: self.file_size,
            downloaded_file_size: self.downloaded_file_size,
            part_size: self.part_size,
            mem_only: self.mem_only,
            parts: self.part_datas@.map_values(|p: PdFilePartStatus| (p.state(), p.size())),
        }
    }
}

/// The number of parts of `part_size` bytes that cover `file_size` bytes,
/// computed without overflow.
pub fn count_parts(file_size: u64, part_size: u32) -> (r: u64)
    ensures
        r as nat == part_count(file_size as nat, part_size as nat),
{
    if part_size == 0 {
        0
    } else if file_size == 0 {
        let ghost ps = part_size as int;
        assert((ps - 1) / ps == 0) by (nonlinear_arith)
            requires
                ps > 0,
        ;
        0
    } else {
        let ps = part_size as u64;
        let r = (file_size - 1) / ps + 1;
        let ghost fs = file_size as int;
        let ghost p = ps as int;
        assert((fs - 1) / p + 1 == (fs + p - 1) / p) by (nonlinear_arith)
            requires
                p > 0,
                fs >= 1,
        ;
        r
    }
}

impl PdFile {
    /// Create a new instance of the [PdFile]: version 1.0, started, single
    /// thread, nothing known or downloaded, kept in memory only.
    pub fn new() -> (r: Self)
        ensures
            r@ == (PdFileModel {
                version: (1u8, 0u8),
                need_saved: false,
                file_name: None,
                status: PdFileStatus::Started,
                ftype: PdFileType::SingleThread,
                file_size: 0,
                downloaded_file_size: 0,
                part_size: 0,
                mem_only: true,
                parts: seq![],
            }),
    {
        let r = Self {
            version: PdFileVersion::new(1, 0),
            need_saved: false,
            file_name: None,
            status: PdFileStatus::Started,
            ftype: PdFileType::SingleThread,
            file_size: 0,
            downloaded_file_size: 0,
            part_size: 0,
            mem_only: true,
            part_datas: Vec::new(),
        };
        assert(r@.parts =~= Seq::<(PartState, u32)>::empty());
        r
    }

    /// Set the status to the initialized status. A pd file kept on disk then
    /// needs to be written again.
    pub fn clear(&mut self)
        ensures
            final(self)@ == (PdFileModel {
                status: PdFileStatus::Started,
                ftype: PdFileType::SingleThread,
                file_size: 0,
                downloaded_file_size: 0,
                part_size: 0,
                parts: seq![],
                need_saved: old(self)@.need_saved || !old(self)@.mem_only,
                ..old(self)@
            }),
    {
        self.status = PdFileStatus::Started;
        self.ftype = PdFileType::SingleThread;
        self.file_size = 0;
        self.downloaded_file_size = 0;
        self.part_size = 0;
        self.part_datas = Vec::new();
        if !self.mem_only {
            self.need_saved = true;
        }
        assert(self@.parts =~= Seq::<(PartState, u32)>::empty());
    }

    /// Complete the download. Returns true when the pd file is kept on disk,
    /// and so has to be removed.
    pub fn complete(&mut self) -> (r: bool)
        ensures
            final(self)@ == (PdFileModel { status: PdFileStatus::Downloaded, ..old(self)@ }),
            r == !old(self)@.mem_only,
    {
        self.set_completed();
        !self.mem_only
    }

    /// Returns the size of the downloaded data
    pub fn get_downloaded_file_size(&self) -> (r: u64)
        ensures
            r == self@.downloaded_file_size,
    {
        self.downloaded_file_size
    }

    /// The target size of the file. 0 if unknown.
    pub fn get_file_size(&self) -> (r: u64)
        ensures
            r == self@.file_size,
    {
        self.file_size
    }

    /// The size of each part.
    pub fn get_part_size(&self) -> (r: u32)
        ensures
            r == self@.part_size,
    {
        self.part_size
    }

    /// The file name, if set.
    pub fn get_file_name(&self) -> (r: Option<&String>)
        ensures
            match r {
                Some(s) => self@.file_name == Some(s@),
                None => self@.file_name is None,
            },
    {
        match &self.file_name {
            Some(s) => Some(s),
            None => None,
        }
    }

    /// Return status data of a part
    /// * `index` - The part index
    pub fn get_part_data(&self, index: usize) -> (r: Option<&PdFilePartStatus>)
        ensures
            index < self@.parts.len() <==> r is Some,
            r matches Some(p) ==> (p.state(), p.size()) == self@.parts[index as int],
    {
        if index < self.part_datas.len() {
            Some(&self.part_datas[index])
        } else {
            None
        }
    }

    /// Increase the downloaded file size.
    /// * `size` - The file size want to added.
    ///
    /// Returns the downloaded file size
    pub fn inc(&mut self, size: u64) -> (r: u64)
        requires
            old(self)@.downloaded_file_size + size <= u64::MAX,
        ensures
            r == old(self)@.downloaded_file_size + size,
            final(self)@ == (PdFileModel { downloaded_file_size: r, ..old(self)@ }),
    {
        self.downloaded_file_size = self.downloaded_file_size + size;
        self.downloaded_file_size
    }

    /// Returns true if the download is completed.
    pub fn is_completed(&self) -> (r: bool)
        ensures
            r == (self@.status == PdFileStatus::Downloaded),
    {
        self.status.is_completed()
    }

    /// Returns true if the download is in progress.
    pub fn is_downloading(&self) -> (r: bool)
        ensures
            r == (self@.status == PdFileStatus::Downloading),
    {
        self.status.is_downloading()
    }

    /// Returns true if the download is started.
    pub fn is_started(&self) -> (r: bool)
        ensures
            r == (self@.status == PdFileStatus::Started),
    {
        self.status.is_started()
    }

    /// Returns true if stored in memory only.
    pub fn is_mem_only(&self) -> (r: bool)
        ensures
            r == self@.mem_only,
    {
        self.mem_only
    }

    /// Returns true if is multiple thread mode.
    pub fn is_multi_threads(&self) -> (r: bool)
        ensures
            r == (self@.ftype == PdFileType::MultiThread),
    {
        self.ftype.is_multi()
    }

    /// Every part records a downloaded size below 2^30, as a part record can
    /// hold; returns true.
    pub fn parts_fit(&self) -> (r: bool)
        ensures
            r,
            forall|i: int| 0 <= i < self@.parts.len() ==> (#[trigger] self@.parts[i]).1
                < part_size_limit(),
    {
        let n = self.part_datas.len();
        let mut i: usize = 0;
        while i < n
            invariant
                i <= n == self.part_datas@.len(),
                forall|j: int| 0 <= j < i ==> (#[trigger] self@.parts[j]).1 < part_size_limit(),
            decreases n - i,
        {
            let p = &self.part_datas[i];
            let _ = p.downloaded_size();
            assert(p.size() == self@.parts[i as int].1);
            i = i + 1;
        }
        true
    }

    /// Returns true if needed to save to file.
    pub fn is_need_saved(&self) -> (r: bool)
        ensures
            r == self@.need_saved,
    {
        self.need_saved
    }

    /// Keep the pd file on disk from now on: it is no longer in memory only,
    /// and needs to be written.
    pub fn set_file_backed(&mut self)
        ensures
            final(self)@ == (PdFileModel { mem_only: false, need_saved: true, ..old(self)@ }),
    {
        self.mem_only = false;
        self.need_saved = true;
    }

    /// Record that everything has been written to disk.
    pub fn set_saved(&mut self)
        ensures
            final(self)@ == (PdFileModel { need_saved: false, ..old(self)@ }),
    {
        self.need_saved = false;
    }

    /// Set status to alreay downloaded.
    fn set_completed(&mut self)
        ensures
            final(self)@ == (PdFileModel { status: PdFileStatus::Downloaded, ..old(self)@ }),
    {
        self.status = PdFileStatus::Downloaded;
    }

    /// Set status to downloading.
    fn set_downloading(&mut self)
        ensures
            final(self)@ == (PdFileModel { status: PdFileStatus::Downloading, ..old(self)@ }),
    {
        self.status = PdFileStatus::Downloading;
    }

    /// Set the file name
    /// * `file_name` - The file name. Should not be empty.
    ///
    /// A pd file kept on disk then needs to be written again.
    pub fn set_file_name(&mut self, file_name: &str) -> (r: Result<(), PdFileError>)
        ensures
            r is Err <==> file_name@.len() == 0,
            r matches Err(e) ==> e is String,
            r is Err ==> final(self)@ == old(self)@,
            r is Ok ==> final(self)@ == (PdFileModel {
                file_name: Some(file_name@),
                need_saved: old(self)@.need_saved || !old(self)@.mem_only,
                ..old(self)@
            }),
    {
        if file_name.unicode_len() == 0 {
            Err(PdFileError::from_str("File name should not be empty."))
        } else {
            self.file_name = Some(String::from_str(file_name));
            if !self.mem_only {
                self.need_saved = true;
            }
            Ok(())
        }
    }

    /// Set the target size of the file. If unknown, set this to 0.
    /// * `file_size` - The target size of the file.
    ///
    /// This will also set the status to downloading. A pd file kept on disk
    /// then needs its size and status written.
    pub fn set_file_size(&mut self, file_size: u64)
        ensures
            final(self)@ == (PdFileModel {
                file_size: file_size,
                status: PdFileStatus::Downloading,
                ..old(self)@
            }),
    {
        self.file_size = file_size;
        self.set_downloading();
    }

    /// Reads a pd file from its bytes. The result is kept on disk, needs no
    /// saving, and every part starts with no retries.
    ///
    /// Fails on the first field that is missing or wrong: data that ends early
    /// (an I/O error), no magic words, a newer version, an unknown status or
    /// type, or a file name that is not UTF-8.
    pub fn from_bytes(b: &[u8]) -> (r: Result<PdFile, PdFileError>)
        ensures
            match decode_outcome(b@) {
                Ok(m) => r matches Ok(p) && p@ == m,
                Err(f) => r matches Err(e) && error_matches(e, f),
            },
    {
        let len = b.len();
        if len < 4 {
            return Err(PdFileError::IoError(unexpected_eof()));
        }
        if !(b[0] == 0x50 && b[1] == 0x44 && b[2] == 0xff && b[3] == 0xff) {
            assert(b@.subrange(0, 4) != magic()) by {
                if b@.subrange(0, 4) == magic() {
                    assert(b@[0] == b@.subrange(0, 4)[0]);
                    assert(b@[1] == b@.subrange(0, 4)[1]);
                    assert(b@[2] == b@.subrange(0, 4)[2]);
                    assert(b@[3] == b@.subrange(0, 4)[3]);
                }
            }
            return Err(PdFileError::InvalidPdFile);
        }
        assert(b@.subrange(0, 4) =~= magic());
        if len < 6 {
            return Err(PdFileError::IoError(unexpected_eof()));
        }
        let version = match PdFileVersion::from_bytes(b, 4) {
            Ok(v) => v,
            Err(_) => {
                return Err(PdFileError::IoError(unexpected_eof()));
            },
        };
        if !version.is_supported() {
            return Err(PdFileError::Unsupported);
        }
        if len < 11 {
            return Err(PdFileError::IoError(unexpected_eof()));
        }
        let status = match PdFileStatus::from_int(b[10]) {
            Some(s) => s,
            None => {
                return Err(PdFileError::from_str("Invalid pd file: the status is unknown."));
            },
        };
        if len < 12 {
            return Err(PdFileError::IoError(unexpected_eof()));
        }
        let ftype = match PdFileType::from_int(b[11]) {
            Some(t) => t,
            None => {
                return Err(PdFileError::from_str("Invalid pd file: the type is unknown."));
            },
        };
        if len < 32 {
            return Err(PdFileError::IoError(unexpected_eof()));
        }
        let nl = read_le(b, 6, 4);
        let file_size = read_le(b, 12, 8);
        let downloaded = read_le(b, 20, 8);
        let ps64 = read_le(b, 28, 4);
        proof {
            lemma_pow256_values();
            lemma_le_value_bound(b@.subrange(6, 10));
            lemma_le_value_bound(b@.subrange(28, 32));
        }
        let part_size = ps64 as u32;
        if (len as u64) < 32 + nl {
            return Err(PdFileError::IoError(unexpected_eof()));
        }
        let name_end: usize = 32 + nl as usize;
        let mut name_bytes: Vec<u8> = Vec::new();
        let mut i: usize = 32;
        while i < name_end
            invariant
                32 <= i <= name_end <= len,
                len == b@.len(),
                name_bytes@ == b@.subrange(32, i as int),
            decreases name_end - i,
        {
            name_bytes.push(b[i]);
            assert(b@.subrange(32, i + 1) =~= b@.subrange(32, i as int).push(b@[i as int]));
            i = i + 1;
        }
        let name = match string_from_utf8(name_bytes) {
            Ok(s) => s,
            Err(e) => {
                return Err(PdFileError::Utf8Error(e));
            },
        };
        let k: u64 = if ftype.is_multi() && file_size != 0 && part_size != 0 {
            count_parts(file_size, part_size)
        } else {
            0
        };
        let mut parts: Vec<PdFilePartStatus> = Vec::new();
        let mut j: u64 = 0;
        let mut pos: usize = name_end;
        assert(parts@.map_values(|p: PdFilePartStatus| (p.state(), p.size())) =~= seq![]);
        assert(parts_outcome(b@, name_end as nat, k as nat) matches Err(f) ==> decode_outcome(b@)
            == Err::<PdFileModel, PdDecodeFailure>(f));
        while j < k
            invariant
                parts_outcome(b@, name_end as nat, k as nat) matches Err(f) ==> decode_outcome(b@)
                    == Err::<PdFileModel, PdDecodeFailure>(f),
                j <= k,
                len == b@.len(),
                name_end <= pos <= len,
                pos == name_end + 4 * j,
                parts_outcome(b@, name_end as nat, j as nat) == Ok::<
                    Seq<(PartState, u32)>,
                    PdDecodeFailure,
                >(parts@.map_values(|p: PdFilePartStatus| (p.state(), p.size()))),
            decreases k - j,
        {
            if len - pos < 4 {
                assert(parts_outcome(b@, name_end as nat, (j + 1) as nat) == Err::<
                    Seq<(PartState, u32)>,
                    PdDecodeFailure,
                >(PdDecodeFailure::Eof));
                proof {
                    lemma_parts_outcome_err_sticks(b@, name_end as nat, (j + 1) as nat, k as nat);
                }
                return Err(PdFileError::IoError(unexpected_eof()));
            }
            let part = match PdFilePartStatus::from_bytes(b, pos) {
                Ok(p) => p,
                Err(e) => {
                    assert(parts_outcome(b@, name_end as nat, (j + 1) as nat) == Err::<
                        Seq<(PartState, u32)>,
                        PdDecodeFailure,
                    >(PdDecodeFailure::BadEnum));
                    proof {
                        lemma_parts_outcome_err_sticks(
                            b@,
                            name_end as nat,
                            (j + 1) as nat,
                            k as nat,
                        );
                    }
                    return Err(e);
                },
            };
            let ghost before = parts@;
            parts.push(part);
            proof {
                assert(parts@.map_values(|p: PdFilePartStatus| (p.state(), p.size())) =~= before.map_values(
                    |p: PdFilePartStatus| (p.state(), p.size()),
                ).push((part.state(), part.size())));
            }
            j = j + 1;
            pos = pos + 4;
        }
        let r = PdFile {
            version,
            need_saved: false,
            file_name: Some(name),
            status,
            ftype,
            file_size,
            downloaded_file_size: downloaded,
            part_size,
            mem_only: false,
            part_datas: parts,
        };
        Ok(r)
    }

    /// What opening the pd file of a target gives.
    /// * `target_exists` - whether the target file exists
    /// * `pd_contents` - the bytes of the pd file next to it, if that exists
    ///   (only read when the target exists)
    /// * `file_name` - the file name of the target
    ///
    /// An existing target with a pd file continues the download unless the
    /// pd file records it as completed; an existing target without one is
    /// taken as downloaded; otherwise a new pd file, kept on disk, is made.
    pub fn open_with(target_exists: bool, pd_contents: Option<&[u8]>, file_name: &str) -> (r:
        Result<PdFileResult, PdFileError>)
        ensures
            target_exists && pd_contents is Some ==> match decode_outcome(
                pd_contents.unwrap()@,
            ) {
                Ok(m) => if m.status == PdFileStatus::Downloaded {
                    r matches Ok(PdFileResult::TargetExisted)
                } else {
                    r matches Ok(PdFileResult::ExistedOk(f)) && f@ == m
                },
                Err(fail) => r matches Err(e) && error_matches(e, fail),
            },
            target_exists && pd_contents is None ==> r matches Ok(PdFileResult::TargetExisted),
            !target_exists ==> (r is Err <==> file_name@.len() == 0),
            !target_exists ==> (r matches Ok(PdFileResult::Created(f)) && f@ == (PdFileModel {
                version: (1u8, 0u8),
                need_saved: true,
                file_name: Some(file_name@),
                status: PdFileStatus::Started,
                ftype: PdFileType::SingleThread,
                file_size: 0,
                downloaded_file_size: 0,
                part_size: 0,
                mem_only: false,
                parts: seq![],
            })) || r is Err,
    {
        if target_exists {
            match pd_contents {
                Some(b) => {
                    let f = Self::from_bytes(b)?;
                    if f.is_completed() {
                        Ok(PdFileResult::TargetExisted)
                    } else {
                        Ok(PdFileResult::ExistedOk(f))
                    }
                },
                None => Ok(PdFileResult::TargetExisted),
            }
        } else {
            let mut f = PdFile::new();
            f.set_file_backed();
            f.set_file_name(file_name)?;
            Ok(PdFileResult::Created(f))
        }
    }

    /// The bytes of the pd file; fails when the file name is not set.
    pub fn to_bytes(&self) -> (r: Result<Vec<u8>, PdFileError>)
        ensures
            r is Ok <==> self@.file_name is Some,
            r matches Err(e) ==> e is String,
            r matches Ok(b) ==> b@ == pd_bytes(self@),
    {
        let name = match &self.file_name {
            Some(n) => n,
            None => {
                return Err(PdFileError::from_str("File name is not set."));
            },
        };
        let mut f: Vec<u8> = Vec::new();
        f.push(0x50);
        f.push(0x44);
        f.push(0xff);
        f.push(0xff);
        self.version.write_to(&mut f);
        let name_bytes = name.as_str().as_bytes();
        let nl = name_bytes.len() as u64;
        let nl32: u64 = (nl as u32) as u64;
        assert(nl32 == nl % 0x1_0000_0000) by (bit_vector)
            requires
                nl32 == (nl as u32) as u64,
        ;
        push_le(&mut f, nl32, 4);
        f.push(self.status.int_value());
        f.push(self.ftype.int_value());
        push_le(&mut f, self.file_size, 8);
        push_le(&mut f, self.downloaded_file_size, 8);
        let part_size: u32 = if self.ftype.is_multi() {
            self.part_size
        } else {
            0
        };
        push_le(&mut f, part_size as u64, 4);
        let ghost before_name = f@;
        let mut i: usize = 0;
        while i < name_bytes.len()
            invariant
                i <= name_bytes@.len(),
                f@ == before_name + name_bytes@.subrange(0, i as int),
            decreases name_bytes@.len() - i,
        {
            f.push(name_bytes[i]);
            assert(name_bytes@.subrange(0, i + 1) =~= name_bytes@.subrange(0, i as int).push(
                name_bytes[i as int],
            ));
            i = i + 1;
        }
        assert(name_bytes@.subrange(0, name_bytes@.len() as int) =~= name_bytes@);
        assert(f@ =~= header_bytes(self@, encode_utf8(name@)));
        let ghost header = f@;
        if self.ftype.is_multi() && self.file_size != 0 && part_size != 0 {
            let count = count_parts(self.file_size, part_size);
            if count <= self.part_datas.len() as u64 {
                let mut k: usize = 0;
                while k < count as usize
                    invariant
                        k <= count <= self.part_datas@.len(),
                        f@ == header + parts_bytes(self@.parts, k as nat),
                        self@.parts.len() == self.part_datas@.len(),
                    decreases count - k,
                {
                    self.part_datas[k].write_to(&mut f);
                    proof {
                        assert(self@.parts[k as int] == (
                            self.part_datas@[k as int].state(),
                            self.part_datas@[k as int].size(),
                        ));
                        assert(parts_bytes(self@.parts, (k + 1) as nat) == parts_bytes(
                            self@.parts,
                            k as nat,
                        ) + part_bytes(
                            self@.parts[k as int].0.spec_int() as nat,
                            self@.parts[k as int].1 as nat,
                        ));
                    }
                    k = k + 1;
                }
                assert(parts_recorded(self@));
                return Ok(f);
            }
        }
        assert(!parts_recorded(self@));
        assert(f@ =~= header + Seq::<u8>::empty());
        Ok(f)
    }
}

} // verus!

verus! {

/// What a pd file keeps of a state once written and read back: the state
/// is on disk and saved, the part size is the recorded one, and only the
/// recorded parts come back.
pub open spec fn persisted(m: PdFileModel) -> PdFileModel {
    PdFileModel {
        need_saved: false,
        mem_only: false,
        part_size: written_part_size(m),
        parts: if parts_recorded(m) {
            m.parts.take(part_count(m.file_size as nat, m.part_size as nat) as int)
        } else {
            seq![]
        },
        ..m
    }
}

proof fn lemma_parts_bytes_len(ps: Seq<(PartState, u32)>, k: nat)
    requires
        k <= ps.len(),
    ensures
        parts_bytes(ps, k).len() == 4 * k,
    decreases k,
{
    if k > 0 {
        lemma_parts_bytes_len(ps, (k - 1) as nat);
    }
}

proof fn lemma_parts_bytes_at(ps: Seq<(PartState, u32)>, k: nat, j: nat)
    requires
        j < k <= ps.len(),
    ensures
        parts_bytes(ps, k).subrange((4 * j) as int, (4 * j + 4) as int) == part_bytes(
            ps[j as int].0.spec_int() as nat,
            ps[j as int].1 as nat,
        ),
    decreases k,
{
    lemma_parts_bytes_len(ps, (k - 1) as nat);
    let prev = parts_bytes(ps, (k - 1) as nat);
    let last = part_bytes(ps[k - 1].0.spec_int() as nat, ps[k - 1].1 as nat);
    assert(parts_bytes(ps, k) == prev + last);
    if j == k - 1 {
        assert(parts_bytes(ps, k).subrange((4 * j) as int, (4 * j + 4) as int) =~= last);
    } else {
        lemma_parts_bytes_at(ps, (k - 1) as nat, j);
        assert(parts_bytes(ps, k).subrange((4 * j) as int, (4 * j + 4) as int) =~= prev.subrange(
            (4 * j) as int,
            (4 * j + 4) as int,
        ));
    }
}

proof fn lemma_parts_outcome_of_bytes(
    b: Seq<u8>,
    start: nat,
    ps: Seq<(PartState, u32)>,
    k: nat,
    j: nat,
)
    requires
        j <= k <= ps.len(),
        start + 4 * k <= b.len(),
        b.subrange(start as int, (start + 4 * k) as int) == parts_bytes(ps, k),
        forall|i: int| 0 <= i < ps.len() ==> (#[trigger] ps[i]).1 < part_size_limit(),
    ensures
        parts_outcome(b, start, j) == Ok::<Seq<(PartState, u32)>, PdDecodeFailure>(
            ps.take(j as int),
        ),
    decreases j,
{
    if j == 0 {
        assert(ps.take(0) =~= Seq::<(PartState, u32)>::empty());
    } else {
        lemma_parts_outcome_of_bytes(b, start, ps, k, (j - 1) as nat);
        let o = start + 4 * (j - 1);
        lemma_parts_bytes_at(ps, k, (j - 1) as nat);
        let pb = part_bytes(ps[j - 1].0.spec_int() as nat, ps[j - 1].1 as nat);
        assert(b.subrange(o as int, o + 4) == pb) by {
            assert(b.subrange(o as int, o + 4) =~= b.subrange(start as int, (start + 4 * k) as int).subrange(
                (4 * (j - 1)) as int,
                (4 * (j - 1) + 4) as int,
            ));
        }
        assert(b[o as int] == pb[0] && b[o + 1] == pb[1] && b[o + 2] == pb[2] && b[o + 3] == pb[3])
            by {
            assert(b.subrange(o as int, o + 4)[0] == b[o as int]);
            assert(b.subrange(o as int, o + 4)[1] == b[o + 1]);
            assert(b.subrange(o as int, o + 4)[2] == b[o + 2]);
            assert(b.subrange(o as int, o + 4)[3] == b[o + 3]);
        }
        lemma_part_bytes_roundtrip(ps[j - 1].0, ps[j - 1].1 as nat);
        assert(ps.take(j as int) =~= ps.take(j - 1).push(ps[j - 1]));
    }
}

proof fn lemma_header_fields(m: PdFileModel, name: Seq<u8>, rest: Seq<u8>)
    requires
        name.len() < 0x1_0000_0000,
    ensures
        ({
            let b = header_bytes(m, name) + rest;
            &&& b.len() == 32 + name.len() + rest.len()
            &&& b.subrange(0, 4) == magic()
            &&& b[4] == m.version.0
            &&& b[5] == m.version.1
            &&& b[10] == m.status.spec_int()
            &&& b[11] == m.ftype.spec_int()
            &&& le_value(b.subrange(6, 10)) == name.len()
            &&& le_value(b.subrange(12, 20)) == m.file_size
            &&& le_value(b.subrange(20, 28)) == m.downloaded_file_size
            &&& le_value(b.subrange(28, 32)) == written_part_size(m)
            &&& b.subrange(32, 32 + name.len() as int) == name
            &&& b.subrange(32 + name.len() as int, b.len() as int) == rest
        }),
{
    let nl = name.len();
    let b = header_bytes(m, name) + rest;
    lemma_pow256_values();
    lemma_le_bytes_len(nl % 0x1_0000_0000, 4);
    lemma_le_bytes_len(m.file_size as nat, 8);
    lemma_le_bytes_len(m.downloaded_file_size as nat, 8);
    lemma_le_bytes_len(written_part_size(m) as nat, 4);
    lemma_le_roundtrip(nl, 4);
    lemma_le_roundtrip(m.file_size as nat, 8);
    lemma_le_roundtrip(m.downloaded_file_size as nat, 8);
    lemma_le_roundtrip(written_part_size(m) as nat, 4);
    assert(nl % 0x1_0000_0000 == nl);
    assert(b.subrange(0, 4) =~= magic());
    assert(b.subrange(6, 10) =~= le_bytes(nl, 4));
    assert(b.subrange(12, 20) =~= le_bytes(m.file_size as nat, 8));
    assert(b.subrange(20, 28) =~= le_bytes(m.downloaded_file_size as nat, 8));
    assert(b.subrange(28, 32) =~= le_bytes(written_part_size(m) as nat, 4));
    assert(b.subrange(32, 32 + nl as int) =~= name);
    assert(b.subrange(32 + nl as int, b.len() as int) =~= rest);
}

/// Writing a pd file and reading the bytes back gives the state back, as
/// far as the file records it: the version, file name, status, type, sizes,
/// the recorded part size and the recorded parts.
///
/// It holds for a state with a file name of fewer than 2^32 bytes, of a
/// version this program reads, whose parts all fit in 30 bits, and which,
/// in multiple thread mode with known sizes, has a status for every part.
#[verifier::rlimit(40)]
pub proof fn lemma_pd_file_roundtrip(m: PdFileModel)
    requires
        m.file_name is Some,
        encode_utf8(m.file_name.unwrap()).len() < 0x1_0000_0000,
        version_supported(m.version),
        (m.ftype == PdFileType::MultiThread && m.file_size != 0 && m.part_size != 0)
            ==> parts_recorded(m),
        forall|i: int| 0 <= i < m.parts.len() ==> (#[trigger] m.parts[i]).1 < part_size_limit(),
    ensures
        decode_outcome(pd_bytes(m)) == Ok::<PdFileModel, PdDecodeFailure>(persisted(m)),
{
    let name = encode_utf8(m.file_name.unwrap());
    let nl = name.len();
    let rest = if parts_recorded(m) {
        parts_bytes(m.parts, part_count(m.file_size as nat, m.part_size as nat))
    } else {
        seq![]
    };
    let b = pd_bytes(m);
    assert(b == header_bytes(m, name) + rest);
    lemma_header_fields(m, name, rest);
    assert(valid_utf8(name)) by {
        encode_utf8_valid_utf8(m.file_name.unwrap());
    }
    assert(decode_utf8(name) == m.file_name.unwrap()) by {
        encode_utf8_decode_utf8(m.file_name.unwrap());
    }
    if parts_recorded(m) {
        let c = part_count(m.file_size as nat, m.part_size as nat);
        lemma_parts_bytes_len(m.parts, c);
        assert(b.subrange(32 + nl as int, (32 + nl + 4 * c) as int) =~= parts_bytes(m.parts, c)) by {
            assert(b.subrange(32 + nl as int, (32 + nl + 4 * c) as int) =~= b.subrange(
                32 + nl as int,
                b.len() as int,
            ));
        }
        lemma_parts_outcome_of_bytes(b, 32 + nl, m.parts, c, c);
    }
    assert(decode_outcome(b) =~= Ok::<PdFileModel, PdDecodeFailure>(persisted(m)));
}

} // verus!
