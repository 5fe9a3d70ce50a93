use vstd::prelude::*;

verus! {

/// Used primarily as identifiers when creating Exif values
#[derive(Clone, Copy, Debug, Eq, PartialEq, Structural)]
pub enum ExifTypeID {
    /// Exif BYTE type, 8-bit unsigned integer.
    BYTE,
    /// Exif ASCII type, 8-bit byte.
    AsciiString,
    /// Exif SHORT type, 16-bit (2-byte) unsigned integer.
    UShort,
    /// Exif LONG type, 32-bit (4-byte) unsigned integer.
    ULong,
    /// Exif RATIONAL type, two LONGs: numerator and denumerator of a fraction.
    URational,
    /// Exif SBYTE type, an 8-bit signed (twos-complement) integer.
    SBYTE,
    /// Exif UNDEFINED type, an 8-bit byte that may contain anything.
    Undefined,
    /// Exif SSHORT type, a 16-bit (2-byte) signed (twos-complement) integer.
    SShort,
    /// Exif SLONG type, a 32-bit (4-byte) signed (twos-complement) integer.
    SLong,
    /// Exif SRATIONAL type, two SLONGs: numerator and denominator of a fraction.
    SRational,
    /// TIFF FLOAT type, single precision (4-byte) IEEE format.
    TiffFloat,
    /// TIFF DOUBLE type, double precision (8-byte) IEEE format.
    TiffDouble,
    /// TIFF IFD type, 32-bit (4-byte) unsigned integer.
    TiffIfd,
    /// Exif LONG LONG type, 64-bit (8-byte) unsigned integer.
    ULongLong,
    /// Exif LONG LONG type, 64-bit (8-byte) signed integer.
    SLongLong,
    /// TIFF IFD type, 64-bit (8-byte) unsigned integer.
    TiffIfd8,
    /// IPTC string type.
    String,
    /// IPTC date type.
    Date,
    /// IPTC time type.
    Time,
    /// Exiv2 type for the Exif user comment.
    Comment,
    /// Exiv2 type for a CIFF directory.
    Directory,
    /// XMP text type.
    XmpText,
    /// XMP alternative type.
    XmpAlt,
    /// XMP bag type.
    XmpBag,
    /// XMP sequence type.
    XmpSeq,
    /// XMP language alternative type.
    LangAlt,
    /// Invalid type id.
    InvalidTypeId,
    /// Last type id.
    LastTypeId,
}

impl ExifTypeID {
    /// The number that identifies the type.
    pub open spec fn spec_int(self) -> i32 {
        match self {
            ExifTypeID::BYTE => 1,
            ExifTypeID::AsciiString => 2,
            ExifTypeID::UShort => 3,
            ExifTypeID::ULong => 4,
            ExifTypeID::URational => 5,
            ExifTypeID::SBYTE => 6,
            ExifTypeID::Undefined => 7,
            ExifTypeID::SShort => 8,
            ExifTypeID::SLong => 9,
            ExifTypeID::SRational => 10,
            ExifTypeID::TiffFloat => 11,
            ExifTypeID::TiffDouble => 12,
            ExifTypeID::TiffIfd => 13,
            ExifTypeID::ULongLong => 16,
            ExifTypeID::SLongLong => 17,
            ExifTypeID::TiffIfd8 => 18,
            ExifTypeID::String => 0x10000,
            ExifTypeID::Date => 0x10001,
            ExifTypeID::Time => 0x10002,
            ExifTypeID::Comment => 0x10003,
            ExifTypeID::Directory => 0x10004,
            ExifTypeID::XmpText => 0x10005,
            ExifTypeID::XmpAlt => 0x10006,
            ExifTypeID::XmpBag => 0x10007,
            ExifTypeID::XmpSeq => 0x10008,
            ExifTypeID::LangAlt => 0x10009,
            ExifTypeID::InvalidTypeId => 0x1fffe,
            ExifTypeID::LastTypeId => 0x1ffff,
        }
    }

    /// The type a number identifies, if any.
    pub open spec fn spec_from_int(v: i32) -> Option<ExifTypeID> {
        if v == 1 {
            Some(ExifTypeID::BYTE)
        } else if v == 2 {
            Some(ExifTypeID::AsciiString)
        } else if v == 3 {
            Some(ExifTypeID::UShort)
        } else if v == 4 {
            Some(ExifTypeID::ULong)
        } else if v == 5 {
            Some(ExifTypeID::URational)
        } else if v == 6 {
            Some(ExifTypeID::SBYTE)
        } else if v == 7 {
            Some(ExifTypeID::Undefined)
        } else if v == 8 {
            Some(ExifTypeID::SShort)
        } else if v == 9 {
            Some(ExifTypeID::SLong)
        } else if v == 10 {
            Some(ExifTypeID::SRational)
        } else if v == 11 {
            Some(ExifTypeID::TiffFloat)
        } else if v == 12 {
            Some(ExifTypeID::TiffDouble)
        } else if v == 13 {
            Some(ExifTypeID::TiffIfd)
        } else if v == 16 {
            Some(ExifTypeID::ULongLong)
        } else if v == 17 {
            Some(ExifTypeID::SLongLong)
        } else if v == 18 {
            Some(ExifTypeID::TiffIfd8)
        } else if v == 0x10000 {
            Some(ExifTypeID::String)
        } else if v == 0x10001 {
            Some(ExifTypeID::Date)
        } else if v == 0x10002 {
            Some(ExifTypeID::Time)
        } else if v == 0x10003 {
            Some(ExifTypeID::Comment)
        } else if v == 0x10004 {
            Some(ExifTypeID::Directory)
        } else if v == 0x10005 {
            Some(ExifTypeID::XmpText)
        } else if v == 0x10006 {
            Some(ExifTypeID::XmpAlt)
        } else if v == 0x10007 {
            Some(ExifTypeID::XmpBag)
        } else if v == 0x10008 {
            Some(ExifTypeID::XmpSeq)
        } else if v == 0x10009 {
            Some(ExifTypeID::LangAlt)
        } else if v == 0x1fffe {
            Some(ExifTypeID::InvalidTypeId)
        } else if v == 0x1ffff {
            Some(ExifTypeID::LastTypeId)
        } else {
            None
        }
    }

    /// The number that identifies the type.
    pub fn int_value(&self) -> (r: i32)
        ensures
            r == self.spec_int(),
    {
        match self {
            ExifTypeID::BYTE => 1,
            ExifTypeID::AsciiString => 2,
            ExifTypeID::UShort => 3,
            ExifTypeID::ULong => 4,
            ExifTypeID::URational => 5,
            ExifTypeID::SBYTE => 6,
            ExifTypeID::Undefined => 7,
            ExifTypeID::SShort => 8,
            ExifTypeID::SLong => 9,
            ExifTypeID::SRational => 10,
            ExifTypeID::TiffFloat => 11,
            ExifTypeID::TiffDouble => 12,
            ExifTypeID::TiffIfd => 13,
            ExifTypeID::ULongLong => 16,
            ExifTypeID::SLongLong => 17,
            ExifTypeID::TiffIfd8 => 18,
            ExifTypeID::String => 0x10000,
            ExifTypeID::Date => 0x10001,
            ExifTypeID::Time => 0x10002,
            ExifTypeID::Comment => 0x10003,
            ExifTypeID::Directory => 0x10004,
            ExifTypeID::XmpText => 0x10005,
            ExifTypeID::XmpAlt => 0x10006,
            ExifTypeID::XmpBag => 0x10007,
            ExifTypeID::XmpSeq => 0x10008,
            ExifTypeID::LangAlt => 0x10009,
            ExifTypeID::InvalidTypeId => 0x1fffe,
            ExifTypeID::LastTypeId => 0x1ffff,
        }
    }

    /// The type a number identifies, or `None` when no type has it.
    pub fn from_int(v: i32) -> (r: Option<ExifTypeID>)
        ensures
            r == ExifTypeID::spec_from_int(v),
    {
        if v == 1 {
            Some(ExifTypeID::BYTE)
        } else if v == 2 {
            Some(ExifTypeID::AsciiString)
        } else if v == 3 {
            Some(ExifTypeID::UShort)
        } else if v == 4 {
            Some(ExifTypeID::ULong)
        } else if v == 5 {
            Some(ExifTypeID::URational)
        } else if v == 6 {
            Some(ExifTypeID::SBYTE)
        } else if v == 7 {
            Some(ExifTypeID::Undefined)
        } else if v == 8 {
            Some(ExifTypeID::SShort)
        } else if v == 9 {
            Some(ExifTypeID::SLong)
        } else if v == 10 {
            Some(ExifTypeID::SRational)
        } else if v == 11 {
            Some(ExifTypeID::TiffFloat)
        } else if v == 12 {
            Some(ExifTypeID::TiffDouble)
        } else if v == 13 {
            Some(ExifTypeID::TiffIfd)
        } else if v == 16 {
            Some(ExifTypeID::ULongLong)
        } else if v == 17 {
            Some(ExifTypeID::SLongLong)
        } else if v == 18 {
            Some(ExifTypeID::TiffIfd8)
        } else if v == 0x10000 {
            Some(ExifTypeID::String)
        } else if v == 0x10001 {
            Some(ExifTypeID::Date)
        } else if v == 0x10002 {
            Some(ExifTypeID::Time)
        } else if v == 0x10003 {
            Some(ExifTypeID::Comment)
        } else if v == 0x10004 {
            Some(ExifTypeID::Directory)
        } else if v == 0x10005 {
            Some(ExifTypeID::XmpText)
        } else if v == 0x10006 {
            Some(ExifTypeID::XmpAlt)
        } else if v == 0x10007 {
            Some(ExifTypeID::XmpBag)
        } else if v == 0x10008 {
            Some(ExifTypeID::XmpSeq)
        } else if v == 0x10009 {
            Some(ExifTypeID::LangAlt)
        } else if v == 0x1fffe {
            Some(ExifTypeID::InvalidTypeId)
        } else if v == 0x1ffff {
            Some(ExifTypeID::LastTypeId)
        } else {
            None
        }
    }
}

/// The number of a type gives the type back.
pub proof fn lemma_type_id_roundtrip(t: ExifTypeID)
    ensures
        ExifTypeID::spec_from_int(t.spec_int()) == Some(t),
{
}

/// A number that gives a type is that type's number.
pub proof fn lemma_type_id_from_int(v: i32)
    ensures
        ExifTypeID::spec_from_int(v) matches Some(t) ==> t.spec_int() == v,
{
}

/// Type to express the byte orde
#[derive(Clone, Copy, Debug, Eq, PartialEq, Structural)]
pub enum ExifByteOrder {
    Invalid,
    Little,
    Big,
}

impl ExifByteOrder {
    /// The number that identifies the byte order.
    pub open spec fn spec_int(self) -> i32 {
        match self {
            ExifByteOrder::Invalid => 0,
            ExifByteOrder::Little => 1,
            ExifByteOrder::Big => 2,
        }
    }

    /// The byte order a number identifies, if any.
    pub open spec fn spec_from_int(v: i32) -> Option<ExifByteOrder> {
        if v == 0 {
            Some(ExifByteOrder::Invalid)
        } else if v == 1 {
            Some(ExifByteOrder::Little)
        } else if v == 2 {
            Some(ExifByteOrder::Big)
        } else {
            None
        }
    }

    /// The number that identifies the byte order.
    pub fn int_value(&self) -> (r: i32)
        ensures
            r == self.spec_int(),
    {
        match self {
            ExifByteOrder::Invalid => 0,
            ExifByteOrder::Little => 1,
            ExifByteOrder::Big => 2,
        }
    }

    /// The byte order a number identifies, or `None` when none has it.
    pub fn from_int(v: i32) -> (r: Option<ExifByteOrder>)
        ensures
            r == ExifByteOrder::spec_from_int(v),
    {
        if v == 0 {
            Some(ExifByteOrder::Invalid)
        } else if v == 1 {
            Some(ExifByteOrder::Little)
        } else if v == 2 {
            Some(ExifByteOrder::Big)
        } else {
            None
        }
    }
}

/// The number of a byte order gives it back.
pub proof fn lemma_byte_order_roundtrip(b: ExifByteOrder)
    ensures
        ExifByteOrder::spec_from_int(b.spec_int()) == Some(b),
{
}

} // verus!
