//! The uniform data model: displays, profile metadata, configuration,
//! platforms and the closed error taxonomy.

use vstd::prelude::*;
use crate::text::{chars_of, eq_lit};

verus! {

/// Colour space of an ICC profile. `Unknown` is a valid outcome, not an
/// error: the signature was read but is neither of the recognised values.
#[derive(Debug, Clone, Copy, PartialEq, Eq, Structural)]
pub enum ColorSpace {
    RGB,
    Lab,
    Unknown,
}

impl ColorSpace {
    /// The display label of the colour space.
    pub open spec fn label_spec(self) -> Seq<char> {
        match self {
            ColorSpace::RGB => "RGB"@,
            ColorSpace::Lab => "Lab"@,
            ColorSpace::Unknown => "Unknown"@,
        }
    }

    /// Renders the colour space as text.
    pub fn label(&self) -> (r: String)
        ensures
            r@ == self.label_spec(),
    {
        match self {
            ColorSpace::RGB => String::from_str("RGB"),
            ColorSpace::Lab => String::from_str("Lab"),
            ColorSpace::Unknown => String::from_str("Unknown"),
        }
    }
}

/// A platform whose native colour-management subsystem can be queried.
#[derive(Debug, Clone, Copy, PartialEq, Eq, Structural)]
pub enum Platform {
    MacOS,
    Linux,
    Windows,
}

impl Platform {
    /// The display label of the platform.
    pub open spec fn label_spec(self) -> Seq<char> {
        match self {
            Platform::MacOS => "macOS"@,
            Platform::Linux => "Linux"@,
            Platform::Windows => "Windows"@,
        }
    }

    /// Renders the platform name as text.
    pub fn label(&self) -> (r: String)
        ensures
            r@ == self.label_spec(),
    {
        match self {
            Platform::MacOS => String::from_str("macOS"),
            Platform::Linux => String::from_str("Linux"),
            Platform::Windows => String::from_str("Windows"),
        }
    }
}

/// The mathematical value of a [`ProfileError`]: its variant and the text
/// it carries.
pub enum ProfileErrorView {
    UnsupportedPlatform,
    DisplayNotFound(Seq<char>),
    ProfileNotAvailable(Seq<char>),
    SystemError(Seq<char>),
    IoError(Seq<char>),
    ParseError(Seq<char>),
}

/// Errors of profile retrieval: a closed taxonomy, uniform over platforms.
#[derive(Debug)]
pub enum ProfileError {
    /// No backend exists at all for the host.
    UnsupportedPlatform,
    /// The requested display id has no matching device.
    DisplayNotFound(String),
    /// The device exists but no profile could be resolved for it.
    ProfileNotAvailable(String),
    /// A backend reported an operational failure.
    SystemError(String),
    /// A local file read failed.
    IoError(String),
    /// A binary header or a backend's output is malformed.
    ParseError(String),
}

impl View for ProfileError {
    type V = ProfileErrorView;

    open spec fn view(&self) -> ProfileErrorView {
        match self {
            ProfileError::UnsupportedPlatform => ProfileErrorView::UnsupportedPlatform,
            ProfileError::DisplayNotFound(s) => ProfileErrorView::DisplayNotFound(s@),
            ProfileError::ProfileNotAvailable(s) => ProfileErrorView::ProfileNotAvailable(s@),
            ProfileError::SystemError(s) => ProfileErrorView::SystemError(s@),
            ProfileError::IoError(s) => ProfileErrorView::IoError(s@),
            ProfileError::ParseError(s) => ProfileErrorView::ParseError(s@),
        }
    }
}

impl Clone for ProfileError {
    /// A clone carries the same variant and the same text.
    fn clone(&self) -> (r: Self)
        ensures
            r@ == self@,
    {
        match self {
            ProfileError::UnsupportedPlatform => ProfileError::UnsupportedPlatform,
            ProfileError::DisplayNotFound(s) => ProfileError::DisplayNotFound(s.clone()),
            ProfileError::ProfileNotAvailable(s) => ProfileError::ProfileNotAvailable(s.clone()),
            ProfileError::SystemError(s) => ProfileError::SystemError(s.clone()),
            ProfileError::IoError(s) => ProfileError::IoError(s.clone()),
            ProfileError::ParseError(s) => ProfileError::ParseError(s.clone()),
        }
    }
}

impl ProfileError {
    /// The message that [`ProfileError::message`] renders.
    pub open spec fn message_spec(&self) -> Seq<char> {
        match self {
            ProfileError::UnsupportedPlatform => "Platform not supported"@,
            ProfileError::DisplayNotFound(s) => "Display not found: "@ + s@,
            ProfileError::ProfileNotAvailable(s) => "Profile not available for display: "@ + s@,
            ProfileError::SystemError(s) => "System API error: "@ + s@,
            ProfileError::IoError(s) => "IO error: "@ + s@,
            ProfileError::ParseError(s) => "Parse error: "@ + s@,
        }
    }

    /// Renders the error as text.
    pub fn message(&self) -> (r: String)
        ensures
            r@ == self.message_spec(),
    {
        match self {
            ProfileError::UnsupportedPlatform => String::from_str("Platform not supported"),
            ProfileError::DisplayNotFound(s) => {
                let mut m = String::from_str("Display not found: ");
                m.append(s.as_str());
                m
            },
            ProfileError::ProfileNotAvailable(s) => {
                let mut m = String::from_str("Profile not available for display: ");
                m.append(s.as_str());
                m
            },
            ProfileError::SystemError(s) => {
                let mut m = String::from_str("System API error: ");
                m.append(s.as_str());
                m
            },
            ProfileError::IoError(s) => {
                let mut m = String::from_str("IO error: ");
                m.append(s.as_str());
                m
            },
            ProfileError::ParseError(s) => {
                let mut m = String::from_str("Parse error: ");
                m.append(s.as_str());
                m
            },
        }
    }
}

/// The mathematical value of a [`Display`].
pub struct DisplayView {
    pub id: Seq<char>,
    pub name: Seq<char>,
    pub is_primary: bool,
}

/// A display device: opaque stable id, human-readable name, and whether it
/// is the primary display.
#[derive(Debug)]
pub struct Display {
    pub id: String,
    pub name: String,
    pub is_primary: bool,
}

impl View for Display {
    type V = DisplayView;

    open spec fn view(&self) -> DisplayView {
        DisplayView { id: self.id@, name: self.name@, is_primary: self.is_primary }
    }
}

impl Clone for Display {
    /// A clone denotes the same display.
    fn clone(&self) -> (r: Self)
        ensures
            r@ == self@,
    {
        Display { id: self.id.clone(), name: self.name.clone(), is_primary: self.is_primary }
    }
}

impl PartialEq for Display {
    fn eq(&self, other: &Display) -> (r: bool) {
        self.id == other.id && self.name == other.name && self.is_primary == other.is_primary
    }
}

impl vstd::std_specs::cmp::PartialEqSpecImpl for Display {
    open spec fn obeys_eq_spec() -> bool {
        true
    }

    open spec fn eq_spec(&self, other: &Display) -> bool {
        self@ == other@
    }
}

/// The view of an optional string.
pub open spec fn opt_view(o: Option<String>) -> Option<Seq<char>> {
    match o {
        Some(s) => Some(s@),
        None => None,
    }
}

/// The mathematical value of a [`ProfileInfo`].
pub struct ProfileInfoView {
    pub name: Seq<char>,
    pub description: Option<Seq<char>>,
    pub file_path: Option<Seq<char>>,
    pub color_space: ColorSpace,
}

/// Metadata of an ICC profile. A profile may be embedded or synthetic and
/// then has no backing file (`file_path` is `None`).
#[derive(Debug)]
pub struct ProfileInfo {
    pub name: String,
    pub description: Option<String>,
    pub file_path: Option<String>,
    pub color_space: ColorSpace,
}

impl View for ProfileInfo {
    type V = ProfileInfoView;

    open spec fn view(&self) -> ProfileInfoView {
        ProfileInfoView {
            name: self.name@,
            description: opt_view(self.description),
            file_path: opt_view(self.file_path),
            color_space: self.color_space,
        }
    }
}

/// Copies an optional string.
pub fn clone_opt_string(o: &Option<String>) -> (r: Option<String>)
    ensures
        opt_view(r) == opt_view(*o),
{
    match o {
        Some(s) => Some(s.clone()),
        None => None,
    }
}

impl Clone for ProfileInfo {
    /// A clone denotes the same profile metadata.
    fn clone(&self) -> (r: Self)
        ensures
            r@ == self@,
    {
        ProfileInfo {
            name: self.name.clone(),
            description: clone_opt_string(&self.description),
            file_path: clone_opt_string(&self.file_path),
            color_space: self.color_space,
        }
    }
}

impl PartialEq for ProfileInfo {
    fn eq(&self, other: &ProfileInfo) -> (r: bool) {
        let desc_eq = match (&self.description, &other.description) {
            (Some(x), Some(y)) => *x == *y,
            (None, None) => true,
            _ => false,
        };
        let path_eq = match (&self.file_path, &other.file_path) {
            (Some(x), Some(y)) => *x == *y,
            (None, None) => true,
            _ => false,
        };
        self.name == other.name && desc_eq && path_eq && self.color_space == other.color_space
    }
}

impl vstd::std_specs::cmp::PartialEqSpecImpl for ProfileInfo {
    open spec fn obeys_eq_spec() -> bool {
        true
    }

    open spec fn eq_spec(&self, other: &ProfileInfo) -> bool {
        self@ == other@
    }
}

/// Configuration of the resolution engine, immutable for a call sequence.
#[derive(Debug, Clone, Copy, PartialEq, Eq, Structural)]
pub struct ProfileConfig {
    /// Prefer the message-bus channel over the command-line tool where the
    /// platform offers both.
    pub linux_prefer_dbus: bool,
    /// Permit trying further backends after the first one fails.
    pub fallback_enabled: bool,
}

impl Default for ProfileConfig {
    /// Both the message-bus preference and fallback default to on.
    fn default() -> (r: Self)
        ensures
            r.linux_prefer_dbus,
            r.fallback_enabled,
    {
        ProfileConfig { linux_prefer_dbus: true, fallback_enabled: true }
    }
}

/// What [`detect_platform`] answers for a given operating-system name.
pub open spec fn detect_platform_spec(os: Seq<char>) -> Result<Platform, ProfileError> {
    if os == "macos"@ {
        Ok(Platform::MacOS)
    } else if os == "linux"@ {
        Ok(Platform::Linux)
    } else if os == "windows"@ {
        Ok(Platform::Windows)
    } else {
        Err(ProfileError::UnsupportedPlatform)
    }
}

/// Maps an operating-system name, as the standard library spells it, to
/// the platform it denotes; any other name is unsupported.
pub fn detect_platform(os: &str) -> (r: Result<Platform, ProfileError>)
    ensures
        r == detect_platform_spec(os@),
{
    let v = chars_of(os);
    if eq_lit(&v, "macos") {
        Ok(Platform::MacOS)
    } else if eq_lit(&v, "linux") {
        Ok(Platform::Linux)
    } else if eq_lit(&v, "windows") {
        Ok(Platform::Windows)
    } else {
        Err(ProfileError::UnsupportedPlatform)
    }
}

/// No two distinct displays in the sequence are both marked primary.
pub open spec fn at_most_one_primary(ds: Seq<Display>) -> bool {
    forall|i: int, j: int|
        0 <= i < ds.len() && 0 <= j < ds.len() && (#[trigger] ds[i])@.is_primary
            && (#[trigger] ds[j])@.is_primary ==> i == j
}

} // verus!
