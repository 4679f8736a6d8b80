//! The ICC header codec: bit-exact decode and validation of the fixed
//! 128-byte header at the start of a profile, and nothing past it.

use vstd::prelude::*;
use crate::model::{clone_opt_string, opt_view, ProfileError};
use crate::text::{
    ascii_char, dec_spec, eq_lit, chars_of, padded_spec, push_padded, string_of, u64_to_chars,
};

verus! {

/// The big-endian 32-bit value at offset `off` of `b`.
pub open spec fn be_u32(b: Seq<u8>, off: int) -> int {
    b[off] * 0x1000000 + b[off + 1] * 0x10000 + b[off + 2] * 0x100 + b[off + 3]
}

/// The big-endian 16-bit value at offset `off` of `b`.
pub open spec fn be_u16(b: Seq<u8>, off: int) -> int {
    b[off] * 0x100 + b[off + 1]
}

/// One byte of a signature as text: ASCII bytes stand for themselves, any
/// other byte for the replacement character (signatures are ASCII by
/// specification, so a lossy decode is adequate).
pub open spec fn sig_char(b: u8) -> char {
    if b < 128 {
        b as char
    } else {
        '\u{FFFD}'
    }
}

/// The four characters of the signature at offset `off`, undecorated.
pub open spec fn sig_raw(b: Seq<u8>, off: int) -> Seq<char> {
    Seq::new(4, |i: int| sig_char(b[off + i]))
}

/// `s` with trailing NUL characters removed. Trailing spaces are kept:
/// signatures pad with spaces and the padding is significant.
pub open spec fn strip_nuls(s: Seq<char>) -> Seq<char>
    decreases s.len(),
{
    if s.len() > 0 && s[s.len() - 1] == '\u{0}' {
        strip_nuls(s.take(s.len() - 1))
    } else {
        s
    }
}

/// The decoded signature at offset `off`: four characters, trailing NULs
/// stripped.
pub open spec fn sig_spec(b: Seq<u8>, off: int) -> Seq<char> {
    strip_nuls(sig_raw(b, off))
}

/// True when the twelve date-time bytes (offsets 24 to 35) are all zero.
pub open spec fn datetime_absent(b: Seq<u8>) -> bool {
    forall|i: int| 24 <= i < 36 ==> b[i] == 0
}

/// The creation date and time rendered as `YYYY-MM-DD HH:MM:SS`, each
/// field zero-padded. No calendar validation: out-of-range fields are
/// rendered verbatim.
pub open spec fn datetime_text(b: Seq<u8>) -> Seq<char> {
    padded_spec(be_u16(b, 24), 4) + seq!['-'] + padded_spec(be_u16(b, 26), 2) + seq!['-']
        + padded_spec(be_u16(b, 28), 2) + seq![' '] + padded_spec(be_u16(b, 30), 2) + seq![':']
        + padded_spec(be_u16(b, 32), 2) + seq![':'] + padded_spec(be_u16(b, 34), 2)
}

/// The error text of a buffer shorter than a header.
pub open spec fn short_message_spec(n: int) -> Seq<char> {
    "ICC profile data too short: "@ + dec_spec(n) + " bytes (minimum 128)"@
}

/// A device class accepted by [`IccHeader::validate`].
pub open spec fn valid_device_class(s: Seq<char>) -> bool {
    s == "mntr"@ || s == "scnr"@ || s == "prtr"@ || s == "link"@ || s == "spac"@ || s == "abst"@
        || s == "nmcl"@
}

/// A data colour space accepted by [`IccHeader::validate`].
pub open spec fn valid_color_space_sig(s: Seq<char>) -> bool {
    s == "RGB "@ || s == "CMYK"@ || s == "Lab "@ || s == "XYZ "@ || s == "Luv "@ || s == "YCbr"@
        || s == "Yxy "@ || s == "HSV "@ || s == "HLS "@ || s == "CMY "@
}

/// The mathematical value of an [`IccHeader`].
pub struct IccHeaderView {
    pub profile_size: u32,
    pub preferred_cmm: Seq<char>,
    pub version: (u8, u8),
    pub device_class: Seq<char>,
    pub data_color_space: Seq<char>,
    pub connection_space: Seq<char>,
    pub creation_datetime: Option<Seq<char>>,
    pub platform: Seq<char>,
    pub flags: u32,
    pub device_manufacturer: Seq<char>,
    pub device_model: Seq<char>,
}

/// The fixed-layout ICC profile header, derived purely from bytes 0 to 127
/// of a profile buffer.
#[derive(Debug)]
pub struct IccHeader {
    /// Profile size in bytes, as the header declares it.
    pub profile_size: u32,
    /// Preferred colour-management-module signature.
    pub preferred_cmm: String,
    /// Profile version as (major, minor).
    pub version: (u8, u8),
    /// Device class signature, e.g. `mntr` for a monitor.
    pub device_class: String,
    /// Data colour space signature, e.g. `RGB ` with its trailing space.
    pub data_color_space: String,
    /// Profile connection space signature.
    pub connection_space: String,
    /// Creation date and time, absent when the field is all zero.
    pub creation_datetime: Option<String>,
    /// Primary platform signature.
    pub platform: String,
    /// Profile flags.
    pub flags: u32,
    /// Device manufacturer signature.
    pub device_manufacturer: String,
    /// Device model signature.
    pub device_model: String,
}

impl View for IccHeader {
    type V = IccHeaderView;

    open spec fn view(&self) -> IccHeaderView {
        IccHeaderView {
            profile_size: self.profile_size,
            preferred_cmm: self.preferred_cmm@,
            version: self.version,
            device_class: self.device_class@,
            data_color_space: self.data_color_space@,
            connection_space: self.connection_space@,
            creation_datetime: opt_view(self.creation_datetime),
            platform: self.platform@,
            flags: self.flags,
            device_manufacturer: self.device_manufacturer@,
            device_model: self.device_model@,
        }
    }
}

impl Clone for IccHeader {
    /// A clone carries the very same header fields.
    fn clone(&self) -> (r: Self)
        ensures
            r@ == self@,
    {
        IccHeader {
            profile_size: self.profile_size,
            preferred_cmm: self.preferred_cmm.clone(),
            version: (self.version.0, self.version.1),
            device_class: self.device_class.clone(),
            data_color_space: self.data_color_space.clone(),
            connection_space: self.connection_space.clone(),
            creation_datetime: clone_opt_string(&self.creation_datetime),
            platform: self.platform.clone(),
            flags: self.flags,
            device_manufacturer: self.device_manufacturer.clone(),
            device_model: self.device_model.clone(),
        }
    }
}

impl PartialEq for IccHeader {
    fn eq(&self, other: &IccHeader) -> (r: bool) {
        let dt_eq = match (&self.creation_datetime, &other.creation_datetime) {
            (Some(x), Some(y)) => *x == *y,
            (None, None) => true,
            _ => false,
        };
        self.profile_size == other.profile_size && self.preferred_cmm == other.preferred_cmm
            && self.version.0 == other.version.0 && self.version.1 == other.version.1
            && self.device_class == other.device_class && self.data_color_space
            == other.data_color_space && self.connection_space == other.connection_space && dt_eq
            && self.platform == other.platform && self.flags == other.flags
            && self.device_manufacturer == other.device_manufacturer && self.device_model
            == other.device_model
    }
}

impl vstd::std_specs::cmp::PartialEqSpecImpl for IccHeader {
    open spec fn obeys_eq_spec() -> bool {
        true
    }

    open spec fn eq_spec(&self, other: &IccHeader) -> bool {
        self@ == other@
    }
}

/// The decode contract: every field of `h` holds what the bytes of `b`
/// say at its fixed offset.
pub open spec fn header_matches(h: IccHeader, b: Seq<u8>) -> bool {
    &&& h.profile_size == be_u32(b, 0)
    &&& h.preferred_cmm@ == sig_spec(b, 4)
    &&& h.version.0 == b[8]
    &&& h.version.1 == b[9] / 16
    &&& h.device_class@ == sig_spec(b, 12)
    &&& h.data_color_space@ == sig_spec(b, 16)
    &&& h.connection_space@ == sig_spec(b, 20)
    &&& match h.creation_datetime {
        Option::None => datetime_absent(b),
        Option::Some(s) => !datetime_absent(b) && s@ == datetime_text(b),
    }
    &&& h.platform@ == sig_spec(b, 40)
    &&& h.flags == be_u32(b, 44)
    &&& h.device_manufacturer@ == sig_spec(b, 48)
    &&& h.device_model@ == sig_spec(b, 52)
}

fn read_be_u32(data: &[u8], off: usize) -> (r: u32)
    requires
        off + 4 <= data@.len(),
    ensures
        r == be_u32(data@, off as int),
{
    let b0: u32 = data[off] as u32;
    let b1: u32 = data[off + 1] as u32;
    let b2: u32 = data[off + 2] as u32;
    let b3: u32 = data[off + 3] as u32;
    b0 * 0x1000000 + b1 * 0x10000 + b2 * 0x100 + b3
}

fn read_be_u16(data: &[u8], off: usize) -> (r: u16)
    requires
        off + 2 <= data@.len(),
    ensures
        r == be_u16(data@, off as int),
{
    let b0: u16 = data[off] as u16;
    let b1: u16 = data[off + 1] as u16;
    b0 * 0x100 + b1
}

fn read_signature(data: &[u8], off: usize) -> (r: String)
    requires
        off + 4 <= data@.len(),
    ensures
        r@ == sig_spec(data@, off as int),
{
    let dl: usize = data.len();
    let mut v: Vec<char> = Vec::new();
    let mut i: usize = 0;
    while i < 4
        invariant
            i <= 4,
            off + 4 <= dl,
            dl == data@.len(),
            v@ == sig_raw(data@, off as int).take(i as int),
        decreases 4 - i,
    {
        let b = data[off + i];
        if b < 128 {
            v.push(ascii_char(b));
        } else {
            v.push('\u{FFFD}');
        }
        i = i + 1;
        proof {
            assert(sig_raw(data@, off as int).take(i as int) =~= sig_raw(
                data@,
                off as int,
            ).take(i - 1).push(sig_char(data@[off + i - 1])));
        }
    }
    proof {
        assert(sig_raw(data@, off as int).take(4) =~= sig_raw(data@, off as int));
    }
    while v.len() > 0 && v[v.len() - 1] == '\u{0}'
        invariant
            strip_nuls(v@) == sig_spec(data@, off as int),
        decreases v.len(),
    {
        let ghost before = v@;
        v.pop();
        proof {
            assert(v@ =~= before.take(before.len() - 1));
        }
    }
    string_of(&v)
}

impl IccHeader {
    /// Decodes the first 128 bytes of profile data.
    ///
    /// A buffer shorter than 128 bytes is rejected with a `ParseError`
    /// naming the required minimum and the actual length; a buffer of 128
    /// bytes or more always decodes, field by field, as
    /// [`header_matches`] states.
    pub fn parse(data: &[u8]) -> (r: Result<IccHeader, ProfileError>)
        ensures
            match r {
                Ok(h) => data@.len() >= 128 && header_matches(h, data@),
                Err(e) => data@.len() < 128 && (e matches ProfileError::ParseError(m)
                    && m@ == short_message_spec(data@.len() as int)),
            },
    {
        if data.len() < 128 {
            let mut msg = String::from_str("ICC profile data too short: ");
            let digits = u64_to_chars(data.len() as u64);
            let num = string_of(&digits);
            msg.append(num.as_str());
            msg.append(" bytes (minimum 128)");
            return Err(ProfileError::ParseError(msg));
        }
        let profile_size = read_be_u32(data, 0);
        let preferred_cmm = read_signature(data, 4);
        let major: u8 = data[8];
        let minor: u8 = data[9] / 16;
        let device_class = read_signature(data, 12);
        let data_color_space = read_signature(data, 16);
        let connection_space = read_signature(data, 20);
        let mut dt_all_zero: bool = true;
        let mut i: usize = 24;
        while i < 36
            invariant
                24 <= i <= 36,
                data@.len() >= 128,
                dt_all_zero == forall|j: int| 24 <= j < i ==> data@[j] == 0,
            decreases 36 - i,
        {
            if data[i] != 0 {
                dt_all_zero = false;
                i = 36;
            } else {
                i = i + 1;
            }
        }
        let creation_datetime = if dt_all_zero {
            Option::<String>::None
        } else {
            let mut dt: Vec<char> = Vec::new();
            push_padded(&mut dt, read_be_u16(data, 24), 4);
            dt.push('-');
            push_padded(&mut dt, read_be_u16(data, 26), 2);
            dt.push('-');
            push_padded(&mut dt, read_be_u16(data, 28), 2);
            dt.push(' ');
            push_padded(&mut dt, read_be_u16(data, 30), 2);
            dt.push(':');
            push_padded(&mut dt, read_be_u16(data, 32), 2);
            dt.push(':');
            push_padded(&mut dt, read_be_u16(data, 34), 2);
            proof {
                assert(dt@ =~= datetime_text(data@));
            }
            Option::Some(string_of(&dt))
        };
        let platform = read_signature(data, 40);
        let flags = read_be_u32(data, 44);
        let device_manufacturer = read_signature(data, 48);
        let device_model = read_signature(data, 52);
        Ok(
            IccHeader {
                profile_size,
                preferred_cmm,
                version: (major, minor),
                device_class,
                data_color_space,
                connection_space,
                creation_datetime,
                platform,
                flags,
                device_manufacturer,
                device_model,
            },
        )
    }

    /// Checks the header fields that a display profile must carry: a
    /// declared size of at least the header itself, a recognised device
    /// class, and a recognised data colour space. Connection space,
    /// platform and the remaining signatures are informational and not
    /// validated.
    pub fn validate(&self) -> (r: Result<(), ProfileError>)
        ensures
            match r {
                Ok(()) => self.profile_size >= 128 && valid_device_class(self.device_class@)
                    && valid_color_space_sig(self.data_color_space@),
                Err(e) => e matches ProfileError::ParseError(m) && {
                    if self.profile_size < 128 {
                        m@ == "Invalid profile size: "@ + dec_spec(self.profile_size as int)
                            + " bytes"@
                    } else if !valid_device_class(self.device_class@) {
                        m@ == "Invalid device class: "@ + self.device_class@
                    } else {
                        !valid_color_space_sig(self.data_color_space@) && m@
                            == "Invalid data color space: "@ + self.data_color_space@
                    }
                },
            },
    {
        if self.profile_size < 128 {
            let mut msg = String::from_str("Invalid profile size: ");
            let digits = u64_to_chars(self.profile_size as u64);
            let num = string_of(&digits);
            msg.append(num.as_str());
            msg.append(" bytes");
            return Err(ProfileError::ParseError(msg));
        }
        let class = chars_of(self.device_class.as_str());
        let class_ok = eq_lit(&class, "mntr") || eq_lit(&class, "scnr") || eq_lit(&class, "prtr")
            || eq_lit(&class, "link") || eq_lit(&class, "spac") || eq_lit(&class, "abst")
            || eq_lit(&class, "nmcl");
        if !class_ok {
            let mut msg = String::from_str("Invalid device class: ");
            msg.append(self.device_class.as_str());
            return Err(ProfileError::ParseError(msg));
        }
        let space = chars_of(self.data_color_space.as_str());
        let space_ok = eq_lit(&space, "RGB ") || eq_lit(&space, "CMYK") || eq_lit(&space, "Lab ")
            || eq_lit(&space, "XYZ ") || eq_lit(&space, "Luv ") || eq_lit(&space, "YCbr")
            || eq_lit(&space, "Yxy ") || eq_lit(&space, "HSV ") || eq_lit(&space, "HLS ")
            || eq_lit(&space, "CMY ");
        if !space_ok {
            let mut msg = String::from_str("Invalid data color space: ");
            msg.append(self.data_color_space.as_str());
            return Err(ProfileError::ParseError(msg));
        }
        Ok(())
    }
}

/// Decodes the first 128 bytes of profile data; see [`IccHeader::parse`].
pub fn parse_icc_header(data: &[u8]) -> (r: Result<IccHeader, ProfileError>)
    ensures
        match r {
            Ok(h) => data@.len() >= 128 && header_matches(h, data@),
            Err(e) => data@.len() < 128 && (e matches ProfileError::ParseError(m) && m@
                == short_message_spec(data@.len() as int)),
        },
{
    IccHeader::parse(data)
}

} // verus!
