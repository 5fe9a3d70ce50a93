use vstd::prelude::*;

verus! {

/// The status of the downloaded file.
#[derive(Clone, Copy, Debug, PartialEq, Eq, Structural)]
pub enum PdFileStatus {
    /// The download is already started but the target size is unknown.
    Started,
    /// The download is started and the target size is known.
    Downloading,
    /// The download is completed.
    Downloaded,
}

impl PdFileStatus {
    /// The number that stands for the status in a pd file.
    pub open spec fn spec_int(self) -> u8 {
        match self {
            PdFileStatus::Started => 0,
            PdFileStatus::Downloading => 1,
            PdFileStatus::Downloaded => 2,
        }
    }

    /// The status that a number stands for, if any.
    pub open spec fn spec_from_int(v: u8) -> Option<PdFileStatus> {
        if v == 0 {
            Some(PdFileStatus::Started)
        } else if v == 1 {
            Some(PdFileStatus::Downloading)
        } else if v == 2 {
            Some(PdFileStatus::Downloaded)
        } else {
            None
        }
    }

    /// Returns the number of the status.
    pub fn int_value(&self) -> (r: u8)
        ensures
            r == self.spec_int(),
    {
        match self {
            PdFileStatus::Started => 0,
            PdFileStatus::Downloading => 1,
            PdFileStatus::Downloaded => 2,
        }
    }

    /// Returns the status of a number, or `None` if no status has it.
    pub fn from_int(v: u8) -> (r: Option<PdFileStatus>)
        ensures
            r == PdFileStatus::spec_from_int(v),
    {
        if v == 0 {
            Some(PdFileStatus::Started)
        } else if v == 1 {
            Some(PdFileStatus::Downloading)
        } else if v == 2 {
            Some(PdFileStatus::Downloaded)
        } else {
            None
        }
    }

    /// Returns true if the download is completed.
    pub fn is_completed(&self) -> (r: bool)
        ensures
            r == (*self == PdFileStatus::Downloaded),
    {
        *self == PdFileStatus::Downloaded
    }

    /// Returns true if the download is in progress.
    pub fn is_downloading(&self) -> (r: bool)
        ensures
            r == (*self == PdFileStatus::Downloading),
    {
        *self == PdFileStatus::Downloading
    }

    /// Returns true if the download is started.
    pub fn is_started(&self) -> (r: bool)
        ensures
            r == (*self == PdFileStatus::Started),
    {
        *self == PdFileStatus::Started
    }
}

/// The number of a status gives the status back.
pub proof fn lemma_status_int_roundtrip(s: PdFileStatus)
    ensures
        PdFileStatus::spec_from_int(s.spec_int()) == Some(s),
{
}

/// The type of the downloader.
#[derive(Clone, Copy, Debug, PartialEq, Eq, Structural)]
pub enum PdFileType {
    /// Download in single thread mode.
    SingleThread,
    /// Download in multiple thread mode.
    MultiThread,
}

impl PdFileType {
    /// The number that stands for the type in a pd file.
    pub open spec fn spec_int(self) -> u8 {
        match self {
            PdFileType::SingleThread => 0,
            PdFileType::MultiThread => 1,
        }
    }

    /// The type that a number stands for, if any.
    pub open spec fn spec_from_int(v: u8) -> Option<PdFileType> {
        if v == 0 {
            Some(PdFileType::SingleThread)
        } else if v == 1 {
            Some(PdFileType::MultiThread)
        } else {
            None
        }
    }

    /// Returns the number of the type.
    pub fn int_value(&self) -> (r: u8)
        ensures
            r == self.spec_int(),
    {
        match self {
            PdFileType::SingleThread => 0,
            PdFileType::MultiThread => 1,
        }
    }

    /// Returns the type of a number, or `None` if no type has it.
    pub fn from_int(v: u8) -> (r: Option<PdFileType>)
        ensures
            r == PdFileType::spec_from_int(v),
    {
        if v == 0 {
            Some(PdFileType::SingleThread)
        } else if v == 1 {
            Some(PdFileType::MultiThread)
        } else {
            None
        }
    }

    /// Returns true if is multiple thread mode.
    pub fn is_multi(&self) -> (r: bool)
        ensures
            r == (*self == PdFileType::MultiThread),
    {
        *self == PdFileType::MultiThread
    }
}

/// The status of the each part in pd file.
#[derive(Clone, Copy, Debug, PartialEq, Eq, Structural)]
pub enum PdFilePartStatus {
    /// The download of this part is waited.
    Waited,
    /// The download of this part is started.
    Downloading,
    /// The download of this part is completed.
    Downloaded,
}

impl PdFilePartStatus {
    /// The number (two bits wide) that stands for the status of a part.
    pub open spec fn spec_int(self) -> u8 {
        match self {
            PdFilePartStatus::Waited => 0,
            PdFilePartStatus::Downloading => 1,
            PdFilePartStatus::Downloaded => 2,
        }
    }

    /// The status that a number stands for, if any.
    pub open spec fn spec_from_int(v: u8) -> Option<PdFilePartStatus> {
        if v == 0 {
            Some(PdFilePartStatus::Waited)
        } else if v == 1 {
            Some(PdFilePartStatus::Downloading)
        } else if v == 2 {
            Some(PdFilePartStatus::Downloaded)
        } else {
            None
        }
    }

    /// Returns the number of the status.
    pub fn int_value(&self) -> (r: u8)
        ensures
            r == self.spec_int(),
    {
        match self {
            PdFilePartStatus::Waited => 0,
            PdFilePartStatus::Downloading => 1,
            PdFilePartStatus::Downloaded => 2,
        }
    }

    /// Returns the status of a number, or `None` if no status has it.
    pub fn from_int(v: u8) -> (r: Option<PdFilePartStatus>)
        ensures
            r == PdFilePartStatus::spec_from_int(v),
    {
        if v == 0 {
            Some(PdFilePartStatus::Waited)
        } else if v == 1 {
            Some(PdFilePartStatus::Downloading)
        } else if v == 2 {
            Some(PdFilePartStatus::Downloaded)
        } else {
            None
        }
    }

    /// Returns true if the download is waited
    pub fn is_waited(&self) -> (r: bool)
        ensures
            r == (*self == PdFilePartStatus::Waited),
    {
        *self == PdFilePartStatus::Waited
    }

    /// Returns true if the download is started
    pub fn is_downloading(&self) -> (r: bool)
        ensures
            r == (*self == PdFilePartStatus::Downloading),
    {
        *self == PdFilePartStatus::Downloading
    }

    /// Returns true if the download is completed.
    pub fn is_downloaded(&self) -> (r: bool)
        ensures
            r == (*self == PdFilePartStatus::Downloaded),
    {
        *self == PdFilePartStatus::Downloaded
    }

    /// The text that names the status.
    pub fn to_string(&self) -> (r: String)
        ensures
            r@ == self.spec_name(),
    {
        match self {
            PdFilePartStatus::Waited => String::from_str("PdFilePartStatus::Waited"),
            PdFilePartStatus::Downloading => String::from_str("PdFilePartStatus::Downloading"),
            PdFilePartStatus::Downloaded => String::from_str("PdFilePartStatus::Downloaded"),
        }
    }

    /// The text that names the status.
    pub open spec fn spec_name(self) -> Seq<char> {
        match self {
            PdFilePartStatus::Waited => "PdFilePartStatus::Waited"@,
            PdFilePartStatus::Downloading => "PdFilePartStatus::Downloading"@,
            PdFilePartStatus::Downloaded => "PdFilePartStatus::Downloaded"@,
        }
    }
}

/// The number of a type gives the type back.
pub proof fn lemma_type_int_roundtrip(t: PdFileType)
    ensures
        PdFileType::spec_from_int(t.spec_int()) == Some(t),
{
}

/// The number of a part status gives the status back, and fits in two bits.
pub proof fn lemma_part_status_int_roundtrip(s: PdFilePartStatus)
    ensures
        PdFilePartStatus::spec_from_int(s.spec_int()) == Some(s),
        s.spec_int() < 4,
{
}

/// A number is the number of a status exactly when it stands for that status.
pub proof fn lemma_status_from_int_inverse(v: u8)
    ensures
        PdFileStatus::spec_from_int(v) matches Some(s) ==> s.spec_int() == v,
        PdFileType::spec_from_int(v) matches Some(t) ==> t.spec_int() == v,
        PdFilePartStatus::spec_from_int(v) matches Some(p) ==> p.spec_int() == v,
{
}

} // verus!
