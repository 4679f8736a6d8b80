//! Display colour-profile metadata, presented through one uniform model:
//! an ICC header codec, a configurable profile-resolution engine with
//! ordered fallback, and a provider facade over backend adapters.

pub mod engine;
pub mod header;
pub mod linux;
pub mod macos;
pub mod mock;
pub mod model;
pub mod provider;
pub mod text;
pub mod windows;

pub use engine::{adapter_chain, resolve_attempts, AdapterKind, EngineState, ResolutionEngine};
pub use header::{parse_icc_header, IccHeader};
pub use linux::LinuxProfileProvider;
pub use macos::MacOSProfileProvider;
pub use mock::MockProfileProvider;
pub use model::{
    detect_platform, ColorSpace, Display, Platform, ProfileConfig, ProfileError, ProfileInfo,
};
pub use provider::{
    get_all_display_profiles, get_primary_display_profile, get_primary_display_profile_data,
    DisplayProfileProvider,
};
pub use windows::WindowsProfileProvider;
