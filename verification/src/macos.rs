//! The macOS backend logic: decisions over the native graphics queries
//! and the built-in Apple display profiles that stand in when those
//! queries fail. The native calls themselves happen outside the library;
//! every function here is pure in their recorded outcome.

use vstd::prelude::*;
use crate::model::{ColorSpace, Display, DisplayView, ProfileConfig, ProfileError, ProfileInfo,
    ProfileInfoView};
use crate::text::{
    chars_of, contains_seq, contains_lit, dec_spec, parse_u32_spec, parse_u32_chars, string_of,
    trim_chars, trim_spec, u64_to_chars,
};

verus! {

/// The colour space that profile bytes declare: the four bytes at offset
/// 16, when the buffer reaches them.
pub open spec fn color_space_of_bytes(b: Seq<u8>) -> ColorSpace {
    if b.len() < 20 {
        ColorSpace::Unknown
    } else if b[16] == 82 && b[17] == 71 && b[18] == 66 && b[19] == 32 {
        ColorSpace::RGB
    } else if b[16] == 76 && b[17] == 97 && b[18] == 98 && b[19] == 32 {
        ColorSpace::Lab
    } else {
        ColorSpace::Unknown
    }
}

/// Reads the data colour space signature out of profile bytes: `RGB `
/// and `Lab ` are recognised, anything else — or a buffer too short to
/// hold the field — is unknown.
pub fn determine_color_space(icc_data: &[u8]) -> (r: ColorSpace)
    ensures
        r == color_space_of_bytes(icc_data@),
{
    if icc_data.len() < 20 {
        return ColorSpace::Unknown;
    }
    if icc_data[16] == 82 && icc_data[17] == 71 && icc_data[18] == 66 && icc_data[19] == 32 {
        ColorSpace::RGB
    } else if icc_data[16] == 76 && icc_data[17] == 97 && icc_data[18] == 98 && icc_data[19]
        == 32 {
        ColorSpace::Lab
    } else {
        ColorSpace::Unknown
    }
}

/// The minimal built-in header: declared size 128, the given preferred
/// CMM signature, version 2.1, device class `mntr`, colour space `RGB `,
/// connection space `XYZ `, all else zero.
pub open spec fn apple_icc_bytes(c0: u8, c1: u8, c2: u8, c3: u8) -> Seq<u8> {
    seq![
        0u8, 0u8, 0u8, 128u8,
        c0, c1, c2, c3,
        2u8, 16u8, 0u8, 0u8,
        109u8, 110u8, 116u8, 114u8,
        82u8, 71u8, 66u8, 32u8,
        88u8, 89u8, 90u8, 32u8,
    ] + Seq::new(104, |i: int| 0u8)
}

fn build_apple_icc(c0: u8, c1: u8, c2: u8, c3: u8) -> (r: Vec<u8>)
    ensures
        r@ == apple_icc_bytes(c0, c1, c2, c3),
{
    let mut v: Vec<u8> = Vec::new();
    v.push(0);
    v.push(0);
    v.push(0);
    v.push(128);
    v.push(c0);
    v.push(c1);
    v.push(c2);
    v.push(c3);
    v.push(2);
    v.push(16);
    v.push(0);
    v.push(0);
    v.push(109);
    v.push(110);
    v.push(116);
    v.push(114);
    v.push(82);
    v.push(71);
    v.push(66);
    v.push(32);
    v.push(88);
    v.push(89);
    v.push(90);
    v.push(32);
    let mut i: usize = 0;
    while i < 104
        invariant
            i <= 104,
            v@ == apple_icc_bytes(c0, c1, c2, c3).take(24 + i),
        decreases 104 - i,
    {
        v.push(0);
        i = i + 1;
        proof {
            assert(apple_icc_bytes(c0, c1, c2, c3).take(24 + i) =~= apple_icc_bytes(
                c0,
                c1,
                c2,
                c3,
            ).take(24 + i - 1).push(0u8));
        }
    }
    proof {
        assert(apple_icc_bytes(c0, c1, c2, c3).take(128) =~= apple_icc_bytes(c0, c1, c2, c3));
    }
    v
}

/// The mathematical value of an [`AppleDisplayProfile`].
pub struct AppleDisplayProfileView {
    pub name: Seq<char>,
    pub description: Seq<char>,
    pub color_space: ColorSpace,
    pub icc_data: Seq<u8>,
}

/// A built-in Apple display profile: fallback metadata and a minimal
/// header for when the native queries yield nothing.
#[derive(Debug)]
pub struct AppleDisplayProfile {
    pub name: String,
    pub description: String,
    pub color_space: ColorSpace,
    pub icc_data: Vec<u8>,
}

impl View for AppleDisplayProfile {
    type V = AppleDisplayProfileView;

    open spec fn view(&self) -> AppleDisplayProfileView {
        AppleDisplayProfileView {
            name: self.name@,
            description: self.description@,
            color_space: self.color_space,
            icc_data: self.icc_data@,
        }
    }
}

impl AppleDisplayProfile {
    /// The standard RGB profile, the safe default for external displays.
    pub fn srgb() -> (r: Self)
        ensures
            r@.name == "sRGB IEC61966-2.1"@,
            r@.description == "Standard RGB color space"@,
            r@.color_space == ColorSpace::RGB,
            r@.icc_data == apple_icc_bytes(65, 68, 66, 69),
    {
        AppleDisplayProfile {
            name: String::from_str("sRGB IEC61966-2.1"),
            description: String::from_str("Standard RGB color space"),
            color_space: ColorSpace::RGB,
            icc_data: build_apple_icc(65, 68, 66, 69),
        }
    }

    /// The wide-gamut Display P3 profile.
    pub fn display_p3() -> (r: Self)
        ensures
            r@.name == "Display P3"@,
            r@.description == "Display P3 color space"@,
            r@.color_space == ColorSpace::RGB,
            r@.icc_data == apple_icc_bytes(65, 80, 80, 76),
    {
        AppleDisplayProfile {
            name: String::from_str("Display P3"),
            description: String::from_str("Display P3 color space"),
            color_space: ColorSpace::RGB,
            icc_data: build_apple_icc(65, 80, 80, 76),
        }
    }

    /// The built-in Color LCD profile.
    pub fn color_lcd() -> (r: Self)
        ensures
            r@.name == "Color LCD"@,
            r@.description == "Apple Color LCD profile"@,
            r@.color_space == ColorSpace::RGB,
            r@.icc_data == apple_icc_bytes(65, 80, 80, 76),
    {
        AppleDisplayProfile {
            name: String::from_str("Color LCD"),
            description: String::from_str("Apple Color LCD profile"),
            color_space: ColorSpace::RGB,
            icc_data: build_apple_icc(65, 80, 80, 76),
        }
    }
}

/// True when the fallback for this display is the built-in Color LCD
/// profile: the primary display with a built-in name; every other
/// display falls back to standard RGB.
pub open spec fn fallback_is_lcd(d: DisplayView) -> bool {
    d.is_primary && contains_seq(d.name, "Built-in"@)
}

/// The built-in profile that stands in for `display` when the native
/// queries fail.
pub fn get_fallback_profile(display: &Display) -> (r: AppleDisplayProfile)
    ensures
        fallback_is_lcd(display@) ==> r@.name == "Color LCD"@ && r@.description
            == "Apple Color LCD profile"@ && r@.color_space == ColorSpace::RGB && r@.icc_data
            == apple_icc_bytes(65, 80, 80, 76),
        !fallback_is_lcd(display@) ==> r@.name == "sRGB IEC61966-2.1"@ && r@.description
            == "Standard RGB color space"@ && r@.color_space == ColorSpace::RGB && r@.icc_data
            == apple_icc_bytes(65, 68, 66, 69),
{
    let name_chars = chars_of(display.name.as_str());
    if display.is_primary && contains_lit(&name_chars, "Built-in") {
        AppleDisplayProfile::color_lcd()
    } else {
        AppleDisplayProfile::srgb()
    }
}

/// Parses a display id the way the native ids are numbered.
pub fn parse_display_id(id: &str) -> (r: Option<u32>)
    ensures
        r == parse_u32_spec(id@),
{
    let chars = chars_of(id);
    parse_u32_chars(&chars)
}

/// The name under which a native display surfaces: the main display is
/// the built-in one, any other is named as external with its id.
pub open spec fn display_name_spec(display_id: u32, is_main: bool) -> Seq<char> {
    if is_main {
        "Built-in Display"@
    } else {
        "External Display "@ + dec_spec(display_id as int)
    }
}

/// Builds the display name, as [`display_name_spec`] states.
pub fn get_display_name(display_id: u32, is_main: bool) -> (r: String)
    ensures
        r@ == display_name_spec(display_id, is_main),
{
    if is_main {
        String::from_str("Built-in Display")
    } else {
        let mut name = chars_of("External Display ");
        let digits = u64_to_chars(display_id as u64);
        crate::text::append_chars(&mut name, &digits);
        string_of(&name)
    }
}

/// The mathematical value of a [`NativeSpaceInfo`].
pub struct NativeSpaceInfoView {
    pub name: Option<Seq<char>>,
    pub icc_data: Option<Seq<u8>>,
}

/// What the native colour-space queries yielded for a display: its name,
/// when one was copied, and its profile bytes, when they were.
#[derive(Debug)]
pub struct NativeSpaceInfo {
    pub name: Option<String>,
    pub icc_data: Option<Vec<u8>>,
}

impl View for NativeSpaceInfo {
    type V = NativeSpaceInfoView;

    open spec fn view(&self) -> NativeSpaceInfoView {
        NativeSpaceInfoView {
            name: match self.name {
                Some(s) => Some(s@),
                None => None,
            },
            icc_data: match self.icc_data {
                Some(d) => Some(d@),
                None => None,
            },
        }
    }
}

/// The profile metadata derived from a successful native query: the
/// copied name where it has substance, a generic one otherwise; a
/// description naming the display; the colour space its bytes declare,
/// RGB when no bytes came.
pub open spec fn native_profile_view(d: DisplayView, n: NativeSpaceInfoView) -> ProfileInfoView {
    ProfileInfoView {
        name: match n.name {
            Some(s) => if trim_spec(s).len() == 0 {
                "Display Profile"@
            } else {
                s
            },
            None => "Display Profile"@,
        },
        description: Some("Color profile for "@ + d.name),
        file_path: None,
        color_space: match n.icc_data {
            Some(b) => color_space_of_bytes(b),
            None => ColorSpace::RGB,
        },
    }
}

/// The fallback profile metadata for `display`.
pub open spec fn fallback_info_view(d: DisplayView) -> ProfileInfoView {
    if fallback_is_lcd(d) {
        ProfileInfoView {
            name: "Color LCD"@,
            description: Some("Apple Color LCD profile"@),
            file_path: None,
            color_space: ColorSpace::RGB,
        }
    } else {
        ProfileInfoView {
            name: "sRGB IEC61966-2.1"@,
            description: Some("Standard RGB color space"@),
            file_path: None,
            color_space: ColorSpace::RGB,
        }
    }
}

/// How the raw-bytes query for a display ended: the colour space itself
/// was unavailable, the space was there but carried no bytes, or the
/// bytes came through.
#[derive(Debug)]
pub enum NativeDataQuery {
    SpaceUnavailable(ProfileError),
    DataUnavailable(ProfileError),
    Data(Vec<u8>),
}

/// The macOS provider: holds the configuration that steers the fallback
/// policy. The native calls of its operations happen beyond the library,
/// which supplies every decision over their outcome.
#[derive(Debug)]
pub struct MacOSProfileProvider {
    pub config: ProfileConfig,
}

impl MacOSProfileProvider {
    /// A provider under the default configuration.
    pub fn new() -> (r: Self)
        ensures
            r.config.linux_prefer_dbus,
            r.config.fallback_enabled,
    {
        MacOSProfileProvider { config: ProfileConfig::default() }
    }

    /// A provider under the given configuration.
    pub fn with_config(config: ProfileConfig) -> (r: Self)
        ensures
            r.config == config,
    {
        MacOSProfileProvider { config }
    }

    /// Decides the profile of `display` from the native query's outcome.
    /// A display id that is no native number, and a failed query, both
    /// fall back to the built-in profiles when fallback is on; with
    /// fallback off the id failure is a missing display and the query's
    /// own error is surfaced.
    pub fn resolve_profile(
        &self,
        display: &Display,
        native: Option<Result<NativeSpaceInfo, ProfileError>>,
    ) -> (r: Result<ProfileInfo, ProfileError>)
        requires
            native is Some <==> parse_u32_spec(display.id@) is Some,
        ensures
            parse_u32_spec(display.id@) is None && self.config.fallback_enabled ==> (r matches Ok(
                info,
            ) && info@ == fallback_info_view(display@)),
            parse_u32_spec(display.id@) is None && !self.config.fallback_enabled ==> (r
                matches Err(e) && e@ == crate::model::ProfileErrorView::DisplayNotFound(
                display.id@,
            )),
            parse_u32_spec(display.id@) is Some ==> match native->Some_0 {
                Ok(info) => r matches Ok(p) && p@ == native_profile_view(display@, info@),
                Err(e) => if self.config.fallback_enabled {
                    r matches Ok(p) && p@ == fallback_info_view(display@)
                } else {
                    r matches Err(e2) && e2@ == e@
                },
            },
    {
        match native {
            None => {
                if self.config.fallback_enabled {
                    let fallback = get_fallback_profile(display);
                    Ok(
                        ProfileInfo {
                            name: fallback.name,
                            description: Some(fallback.description),
                            file_path: None,
                            color_space: fallback.color_space,
                        },
                    )
                } else {
                    Err(ProfileError::DisplayNotFound(display.id.clone()))
                }
            },
            Some(Ok(info)) => {
                let name = match info.name {
                    Some(s) => {
                        let sc = chars_of(s.as_str());
                        let t = trim_chars(&sc);
                        if t.len() == 0 {
                            String::from_str("Display Profile")
                        } else {
                            s
                        }
                    },
                    None => String::from_str("Display Profile"),
                };
                let color_space = match &info.icc_data {
                    Some(d) => determine_color_space(d.as_slice()),
                    None => ColorSpace::RGB,
                };
                let mut description = String::from_str("Color profile for ");
                description.append(display.name.as_str());
                Ok(
                    ProfileInfo {
                        name,
                        description: Some(description),
                        file_path: None,
                        color_space,
                    },
                )
            },
            Some(Err(e)) => {
                if self.config.fallback_enabled {
                    let fallback = get_fallback_profile(display);
                    Ok(
                        ProfileInfo {
                            name: fallback.name,
                            description: Some(fallback.description),
                            file_path: None,
                            color_space: fallback.color_space,
                        },
                    )
                } else {
                    Err(e)
                }
            },
        }
    }

    /// Decides the raw profile bytes of `display` from the native
    /// query's outcome. Bytes that came through are handed on; any
    /// failure falls back to the built-in header when fallback is on;
    /// with fallback off, a missing colour space means the profile is
    /// unavailable and a missing byte payload surfaces its own error.
    pub fn resolve_profile_data(
        &self,
        display: &Display,
        native: Option<NativeDataQuery>,
    ) -> (r: Result<Vec<u8>, ProfileError>)
        requires
            native is Some <==> parse_u32_spec(display.id@) is Some,
        ensures
            parse_u32_spec(display.id@) is None && self.config.fallback_enabled ==> (r matches Ok(
                d,
            ) && d@ == fallback_data_view(display@)),
            parse_u32_spec(display.id@) is None && !self.config.fallback_enabled ==> (r
                matches Err(e) && e@ == crate::model::ProfileErrorView::DisplayNotFound(
                display.id@,
            )),
            parse_u32_spec(display.id@) is Some ==> match native->Some_0 {
                NativeDataQuery::Data(d) => r matches Ok(d2) && d2@ == d@,
                NativeDataQuery::DataUnavailable(e) => if self.config.fallback_enabled {
                    r matches Ok(d) && d@ == fallback_data_view(display@)
                } else {
                    r matches Err(e2) && e2@ == e@
                },
                NativeDataQuery::SpaceUnavailable(e) => if self.config.fallback_enabled {
                    r matches Ok(d) && d@ == fallback_data_view(display@)
                } else {
                    r matches Err(e2) && e2@
                        == crate::model::ProfileErrorView::ProfileNotAvailable(display.id@)
                },
            },
    {
        match native {
            None => {
                if self.config.fallback_enabled {
                    let fallback = get_fallback_profile(display);
                    Ok(fallback.icc_data)
                } else {
                    Err(ProfileError::DisplayNotFound(display.id.clone()))
                }
            },
            Some(NativeDataQuery::Data(d)) => Ok(d),
            Some(NativeDataQuery::DataUnavailable(e)) => {
                if self.config.fallback_enabled {
                    let fallback = get_fallback_profile(display);
                    Ok(fallback.icc_data)
                } else {
                    Err(e)
                }
            },
            Some(NativeDataQuery::SpaceUnavailable(_)) => {
                if self.config.fallback_enabled {
                    let fallback = get_fallback_profile(display);
                    Ok(fallback.icc_data)
                } else {
                    Err(ProfileError::ProfileNotAvailable(display.id.clone()))
                }
            },
        }
    }
}

/// The built-in header bytes that stand in for `display`.
pub open spec fn fallback_data_view(d: DisplayView) -> Seq<u8> {
    if fallback_is_lcd(d) {
        apple_icc_bytes(65, 80, 80, 76)
    } else {
        apple_icc_bytes(65, 68, 66, 69)
    }
}

} // verus!
