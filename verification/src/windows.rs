//! The Windows backend logic: decisions over monitor enumeration, the
//! monitor profile query, the registry candidates and the colour
//! directory scan. The native calls, the registry reads and the file
//! reads happen outside the library; every function here is pure in
//! their recorded outcome.

use vstd::prelude::*;
use crate::macos::color_space_of_bytes;
use crate::model::{ColorSpace, Display, DisplayView, ProfileConfig, ProfileError, ProfileInfo,
    ProfileInfoView};
use crate::text::{
    begins_with, chars_of, dec_spec, lower_chars, lower_spec, parse_u32_spec, parse_u32_chars,
    starts_with_spec, string_of, suffix_from, u64_to_chars,
};
use crate::linux::{file_name_part};

verus! {

/// Reads the basic facts of a profile header the way this backend
/// surfaces them: a generic name, no description, and the colour space
/// the bytes declare. A buffer shorter than a header is malformed.
pub fn parse_icc_header(data: &[u8]) -> (r: Result<
    (String, Option<String>, ColorSpace),
    ProfileError,
>)
    ensures
        data@.len() < 128 ==> (r matches Err(e) && e@
            == crate::model::ProfileErrorView::ParseError(
            "ICC profile too small to contain valid header"@,
        )),
        data@.len() >= 128 ==> (r matches Ok(t) && t.0@ == "Windows Display Profile"@ && t.1
            is None && t.2 == color_space_of_bytes(data@)),
{
    if data.len() < 128 {
        return Err(
            ProfileError::ParseError(
                String::from_str("ICC profile too small to contain valid header"),
            ),
        );
    }
    let color_space = crate::macos::determine_color_space(data);
    Ok((String::from_str("Windows Display Profile"), None, color_space))
}

/// One monitor as enumeration reports it: its device name and whether
/// the system flags it primary.
#[derive(Debug)]
pub struct MonitorDesc {
    pub name: String,
    pub is_primary: bool,
}

/// The id under which the monitor at `index` surfaces.
pub open spec fn monitor_id_spec(index: int) -> Seq<char> {
    "monitor_"@ + dec_spec(index)
}

fn monitor_id(index: usize) -> (r: String)
    ensures
        r@ == monitor_id_spec(index as int),
{
    let mut v = chars_of("monitor_");
    let digits = u64_to_chars(index as u64);
    crate::text::append_chars(&mut v, &digits);
    string_of(&v)
}

/// Maps the enumerated monitors to displays, in order, each under a
/// positional id and with the primary flag the system reported.
pub fn displays_from_monitors(monitors: &Vec<MonitorDesc>) -> (r: Vec<Display>)
    ensures
        r@.len() == monitors@.len(),
        forall|i: int|
            0 <= i < r@.len() ==> (#[trigger] r@[i])@ == (DisplayView {
                id: monitor_id_spec(i),
                name: monitors@[i].name@,
                is_primary: monitors@[i].is_primary,
            }),
{
    let n: usize = monitors.len();
    let mut r: Vec<Display> = Vec::new();
    let mut i: usize = 0;
    while i < n
        invariant
            i <= n,
            n == monitors@.len(),
            r@.len() == i,
            forall|j: int|
                0 <= j < i ==> (#[trigger] r@[j])@ == (DisplayView {
                    id: monitor_id_spec(j),
                    name: monitors@[j].name@,
                    is_primary: monitors@[j].is_primary,
                }),
        decreases n - i,
    {
        let display = Display {
            id: monitor_id(i),
            name: monitors[i].name.clone(),
            is_primary: monitors[i].is_primary,
        };
        r.push(display);
        i = i + 1;
    }
    r
}

/// The primary display among the enumerated monitors: the one the
/// system flags, else the first monitor taken as primary, else a
/// missing-display failure when there are no monitors at all.
pub fn primary_from_monitors(monitors: &Vec<MonitorDesc>) -> (r: Result<Display, ProfileError>)
    ensures
        monitors@.len() == 0 ==> (r matches Err(e) && e@
            == crate::model::ProfileErrorView::DisplayNotFound("No displays found"@)),
        monitors@.len() > 0 && first_flagged(monitors@) < monitors@.len() ==> (r matches Ok(d)
            && d@.id == monitor_id_spec(first_flagged(monitors@)) && d@.name == monitors@[
            first_flagged(monitors@)
        ].name@ && d@.is_primary),
        monitors@.len() > 0 && first_flagged(monitors@) == monitors@.len() ==> (r matches Ok(d)
            && d@.id == monitor_id_spec(0) && d@.name == monitors@[0].name@ && d@.is_primary),
{
    let n: usize = monitors.len();
    let mut i: usize = 0;
    while i < n
        invariant
            i <= n,
            n == monitors@.len(),
            forall|j: int| 0 <= j < i ==> !(#[trigger] monitors@[j]).is_primary,
        decreases n - i,
    {
        if monitors[i].is_primary {
            proof {
                lemma_first_flagged_at(monitors@, i as int);
            }
            return Ok(
                Display { id: monitor_id(i), name: monitors[i].name.clone(), is_primary: true },
            );
        }
        i = i + 1;
    }
    proof {
        lemma_first_flagged_at(monitors@, n as int);
    }
    if n > 0 {
        return Ok(
            Display { id: monitor_id(0), name: monitors[0].name.clone(), is_primary: true },
        );
    }
    Err(ProfileError::DisplayNotFound(String::from_str("No displays found")))
}

/// Index of the first monitor flagged primary, or the length.
pub open spec fn first_flagged(ms: Seq<MonitorDesc>) -> int
    decreases ms.len(),
{
    if ms.len() == 0 {
        0
    } else if ms[0].is_primary {
        0
    } else {
        1 + first_flagged(ms.skip(1))
    }
}

proof fn lemma_first_flagged_at(ms: Seq<MonitorDesc>, i: int)
    requires
        0 <= i <= ms.len(),
        forall|j: int| 0 <= j < i ==> !(#[trigger] ms[j]).is_primary,
        i < ms.len() ==> ms[i].is_primary,
    ensures
        first_flagged(ms) == i,
    decreases i,
{
    if i > 0 {
        let t = ms.skip(1);
        assert(forall|j: int| 0 <= j < i - 1 ==> t[j] == ms[j + 1]);
        assert(i - 1 < t.len() ==> t[i - 1] == ms[i]);
        lemma_first_flagged_at(t, i - 1);
    }
}

/// The monitor index a display id denotes, when it has the positional
/// shape.
pub open spec fn monitor_index_spec(id: Seq<char>) -> Option<u32> {
    if starts_with_spec(id, "monitor_"@) {
        parse_u32_spec(id.skip(8))
    } else {
        None
    }
}

/// Reads the monitor index out of a display id.
pub fn monitor_index_of_id(id: &str) -> (r: Option<u32>)
    ensures
        r == monitor_index_spec(id@),
{
    proof {
        reveal_strlit("monitor_");
    }
    let v = chars_of(id);
    if begins_with(&v, "monitor_") {
        let tail = suffix_from(&v, 8);
        parse_u32_chars(&tail)
    } else {
        None
    }
}

/// True when the path names a profile file: its extension, case-folded,
/// is `icc` or `icm`.
pub open spec fn has_profile_extension(p: Seq<char>) -> bool {
    crate::text::last_index_of_char(file_name_part(p), '.') > 0 && {
        let ext = lower_spec(
            file_name_part(p).skip(crate::text::last_index_of_char(file_name_part(p), '.') + 1),
        );
        ext == "icc"@ || ext == "icm"@
    }
}

/// The paths with a profile extension, in order.
pub open spec fn keep_profile_paths(s: Seq<Seq<char>>) -> Seq<Seq<char>>
    decreases s.len(),
{
    if s.len() == 0 {
        Seq::empty()
    } else if has_profile_extension(s[0]) {
        seq![s[0]] + keep_profile_paths(s.skip(1))
    } else {
        keep_profile_paths(s.skip(1))
    }
}

/// True when `path` has a profile extension, per
/// [`has_profile_extension`].
pub fn is_profile_path(path: &str) -> (r: bool)
    ensures
        r == has_profile_extension(path@),
{
    let chars = chars_of(path);
    let cl: usize = chars.len();
    let start: usize = match crate::text::rfind_char(&chars, '/') {
        Some(i) => {
            proof {
                assert(i < cl);
                crate::text::lemma_last_index_of_char_at(chars@, '/', i as int);
            }
            i + 1
        },
        None => {
            proof {
                crate::text::lemma_last_index_of_char_at(chars@, '/', -1);
            }
            0
        },
    };
    let name = suffix_from(&chars, start);
    let nl: usize = name.len();
    match crate::text::rfind_char(&name, '.') {
        Some(j) => {
            proof {
                assert(j < nl);
                crate::text::lemma_last_index_of_char_at(name@, '.', j as int);
            }
            if j > 0 {
                let ext = suffix_from(&name, j + 1);
                let low = lower_chars(&ext);
                crate::text::eq_lit(&low, "icc") || crate::text::eq_lit(&low, "icm")
            } else {
                false
            }
        },
        None => {
            proof {
                crate::text::lemma_last_index_of_char_at(name@, '.', -1);
            }
            false
        },
    }
}

/// What a local file failure becomes on this backend: denied access is a
/// system-level condition that names the likely cause, a missing file
/// means the profile is unavailable, and anything else keeps its own
/// text as an I/O failure.
#[derive(Debug, Clone, Copy, PartialEq, Eq, Structural)]
pub enum FileErrorKind {
    PermissionDenied,
    NotFound,
    Other,
}

/// Folds a local file failure into the error taxonomy, as the backend
/// surfaces it.
pub fn handle_windows_permissions_error(kind: FileErrorKind, message: &str) -> (r: ProfileError)
    ensures
        kind == FileErrorKind::PermissionDenied ==> r@
            == crate::model::ProfileErrorView::SystemError(
            "Access denied. Administrator privileges may be required to access color profiles."@,
        ),
        kind == FileErrorKind::NotFound ==> r@
            == crate::model::ProfileErrorView::ProfileNotAvailable(
            "Color profile file not found"@,
        ),
        kind == FileErrorKind::Other ==> r@ == crate::model::ProfileErrorView::IoError(message@),
{
    match kind {
        FileErrorKind::PermissionDenied => ProfileError::SystemError(
            String::from_str(
                "Access denied. Administrator privileges may be required to access color profiles.",
            ),
        ),
        FileErrorKind::NotFound => ProfileError::ProfileNotAvailable(
            String::from_str("Color profile file not found"),
        ),
        FileErrorKind::Other => ProfileError::IoError(String::from_str(message)),
    }
}

/// The mathematical value of a [`CandidateFile`].
pub struct CandidateFileView {
    pub name: Seq<char>,
    pub path: Seq<char>,
    pub data: Option<Seq<u8>>,
}

/// One candidate profile file of the fallback search: its bare name, its
/// path, and its bytes where the file could be read.
#[derive(Debug)]
pub struct CandidateFile {
    pub name: String,
    pub path: String,
    pub data: Option<Vec<u8>>,
}

impl View for CandidateFile {
    type V = CandidateFileView;

    open spec fn view(&self) -> CandidateFileView {
        CandidateFileView {
            name: self.name@,
            path: self.path@,
            data: match self.data {
                Some(d) => Some(d@),
                None => None,
            },
        }
    }
}

/// The metadata a readable candidate yields: parsed header facts where
/// the bytes reach a full header, its own name and an unknown colour
/// space where they do not.
pub open spec fn candidate_info_view(c: CandidateFileView) -> ProfileInfoView {
    if c.data->Some_0.len() >= 128 {
        ProfileInfoView {
            name: "Windows Display Profile"@,
            description: None,
            file_path: Some(c.path),
            color_space: color_space_of_bytes(c.data->Some_0),
        }
    } else {
        ProfileInfoView {
            name: c.name,
            description: None,
            file_path: Some(c.path),
            color_space: ColorSpace::Unknown,
        }
    }
}

/// Index of the first readable candidate, or the length.
pub open spec fn first_readable(cs: Seq<CandidateFileView>) -> int
    decreases cs.len(),
{
    if cs.len() == 0 {
        0
    } else if cs[0].data is Some {
        0
    } else {
        1 + first_readable(cs.skip(1))
    }
}

proof fn lemma_first_readable_at(cs: Seq<CandidateFileView>, i: int)
    requires
        0 <= i <= cs.len(),
        forall|j: int| 0 <= j < i ==> !((#[trigger] cs[j]).data is Some),
        i < cs.len() ==> cs[i].data is Some,
    ensures
        first_readable(cs) == i,
    decreases i,
{
    if i > 0 {
        let t = cs.skip(1);
        assert(forall|j: int| 0 <= j < i - 1 ==> t[j] == cs[j + 1]);
        assert(i - 1 < t.len() ==> t[i - 1] == cs[i]);
        lemma_first_readable_at(t, i - 1);
    }
}

/// The default metadata when no candidate could be read at all: plain
/// sRGB with no backing file, the terminal fallback.
pub open spec fn default_srgb_view() -> ProfileInfoView {
    ProfileInfoView {
        name: "Default sRGB"@,
        description: Some("Default sRGB color space (fallback)"@),
        file_path: None,
        color_space: ColorSpace::RGB,
    }
}

/// How the per-monitor profile query ended: a profile name was found —
/// with the file's bytes where it existed and could be read — or the
/// query itself failed.
#[derive(Debug)]
pub enum MonitorProfileQuery {
    /// The query named a profile. `data` is `None` when no file of that
    /// name exists, `Some(Err(..))` when it exists but cannot be read,
    /// `Some(Ok(..))` when its bytes came through.
    Found { name: String, path: String, data: Option<Result<Vec<u8>, ProfileError>> },
    /// The query itself failed.
    Failed(ProfileError),
}

/// What the profile decision asks the caller to do next.
#[derive(Debug)]
pub enum WinProfileDecision {
    /// The profile is settled.
    Use(ProfileInfo),
    /// Run the fallback search over registry and directory candidates.
    NeedFallback,
    /// Surface this failure.
    Fail(ProfileError),
}

/// The Windows provider: holds the configuration that steers the
/// fallback policy. The native calls, registry reads and file reads of
/// its operations happen beyond the library, which supplies every
/// decision over their outcome.
#[derive(Debug)]
pub struct WindowsProfileProvider {
    pub config: ProfileConfig,
}

impl WindowsProfileProvider {
    /// A provider under the default configuration.
    pub fn new() -> (r: Self)
        ensures
            r.config.linux_prefer_dbus,
            r.config.fallback_enabled,
    {
        WindowsProfileProvider { config: ProfileConfig::default() }
    }

    /// A provider under the given configuration.
    pub fn with_config(config: ProfileConfig) -> (r: Self)
        ensures
            r.config == config,
    {
        WindowsProfileProvider { config }
    }

    /// Keeps the scanned paths that name profile files, in order.
    pub fn scan_color_directory(&self, paths: &Vec<String>) -> (r: Vec<String>)
        ensures
            r@.map_values(|p: String| p@) == keep_profile_paths(
                paths@.map_values(|p: String| p@),
            ),
    {
        let ghost all = paths@.map_values(|p: String| p@);
        let n: usize = paths.len();
        let mut r: Vec<String> = Vec::new();
        let mut i: usize = 0;
        proof {
            assert(r@.map_values(|p: String| p@) =~= Seq::<Seq<char>>::empty());
            assert(all.skip(0) =~= all);
            assert(r@.map_values(|p: String| p@) + keep_profile_paths(all) =~= keep_profile_paths(
                all,
            ));
        }
        while i < n
            invariant
                i <= n,
                n == paths@.len(),
                all == paths@.map_values(|p: String| p@),
                keep_profile_paths(all) == r@.map_values(|p: String| p@) + keep_profile_paths(
                    all.skip(i as int),
                ),
            decreases n - i,
        {
            proof {
                assert(all.skip(i as int)[0] == paths@[i as int]@);
                assert(all.skip(i as int).skip(1) =~= all.skip(i + 1));
            }
            let ghost done = r@;
            if is_profile_path(paths[i].as_str()) {
                r.push(paths[i].clone());
                proof {
                    assert(r@.map_values(|p: String| p@) =~= done.map_values(
                        |p: String| p@,
                    ).push(r@[done.len() as int]@));
                    assert(keep_profile_paths(all.skip(i as int)) == seq![all.skip(i as int)[0]]
                        + keep_profile_paths(all.skip(i + 1)));
                    assert(done.map_values(|p: String| p@) + keep_profile_paths(
                        all.skip(i as int),
                    ) =~= r@.map_values(|p: String| p@) + keep_profile_paths(all.skip(i + 1)));
                }
            } else {
                proof {
                    assert(keep_profile_paths(all.skip(i as int)) == keep_profile_paths(
                        all.skip(i + 1),
                    ));
                }
            }
            i = i + 1;
        }
        proof {
            assert(all.skip(i as int) =~= Seq::<Seq<char>>::empty());
            assert(r@.map_values(|p: String| p@) + keep_profile_paths(all.skip(i as int))
                =~= r@.map_values(|p: String| p@));
        }
        r
    }

    /// The fallback search over the ordered candidates — registry
    /// associations first, then well-known names, then the directory
    /// scan: the first readable file decides, and when none can be read
    /// the default sRGB metadata stands in.
    pub fn fallback_get_profile(&self, candidates: Vec<CandidateFile>) -> (r: ProfileInfo)
        ensures
            first_readable(candidates@.map_values(|c: CandidateFile| c@)) < candidates@.len()
                ==> r@ == candidate_info_view(
                candidates@.map_values(|c: CandidateFile| c@)[first_readable(
                    candidates@.map_values(|c: CandidateFile| c@),
                )],
            ),
            first_readable(candidates@.map_values(|c: CandidateFile| c@)) == candidates@.len()
                ==> r@ == default_srgb_view(),
    {
        let ghost all = candidates@.map_values(|c: CandidateFile| c@);
        let n: usize = candidates.len();
        let mut rest = candidates;
        let mut i: usize = 0;
        while rest.len() > 0
            invariant
                i + rest@.len() == n,
                n == all.len(),
                all == candidates@.map_values(|c: CandidateFile| c@),
                rest@.map_values(|c: CandidateFile| c@) == all.skip(i as int),
                forall|j: int| 0 <= j < i ==> !((#[trigger] all[j]).data is Some),
            decreases rest@.len(),
        {
            let ghost before_rest = rest@;
            let c = rest.remove(0);
            let ghost cv = c@;
            proof {
                assert forall|j: int|
                    0 <= j < rest@.len() implies rest@.map_values(|c: CandidateFile| c@)[j]
                    == #[trigger] all.skip(i + 1)[j] by {
                    assert(rest@[j] == before_rest[j + 1]);
                    assert(before_rest.map_values(|c: CandidateFile| c@)[j + 1] == before_rest[j
                        + 1]@);
                    assert(rest@.map_values(|c: CandidateFile| c@)[j] == rest@[j]@);
                }
                assert(rest@.map_values(|c: CandidateFile| c@) =~= all.skip(i + 1));
                assert(before_rest.map_values(|c: CandidateFile| c@)[0] == before_rest[0]@);
                assert(all[i as int] == c@);
            }
            match c.data {
                Some(data) => {
                    proof {
                        lemma_first_readable_at(all, i as int);
                    }
                    if data.len() >= 128 {
                        let color_space = crate::macos::determine_color_space(data.as_slice());
                        return ProfileInfo {
                            name: String::from_str("Windows Display Profile"),
                            description: None,
                            file_path: Some(c.path),
                            color_space,
                        };
                    }
                    return ProfileInfo {
                        name: c.name,
                        description: None,
                        file_path: Some(c.path),
                        color_space: ColorSpace::Unknown,
                    };
                },
                None => {},
            }
            i = i + 1;
        }
        proof {
            lemma_first_readable_at(all, n as int);
        }
        ProfileInfo {
            name: String::from_str("Default sRGB"),
            description: Some(String::from_str("Default sRGB color space (fallback)")),
            file_path: None,
            color_space: ColorSpace::RGB,
        }
    }

    /// Decides the profile of `display` from the monitor count and the
    /// per-monitor query's outcome. An id outside the enumerated
    /// monitors is a missing display. A readable profile file decides;
    /// an unreadable one still yields its basic facts. A missing file or
    /// a failed query moves to the fallback search when fallback is on,
    /// and surfaces the condition when it is off.
    pub fn profile_decision(
        &self,
        display: &Display,
        monitor_count: usize,
        query: Option<MonitorProfileQuery>,
    ) -> (r: WinProfileDecision)
        requires
            query is Some <==> (monitor_index_spec(display.id@) is Some && monitor_index_spec(
                display.id@,
            )->Some_0 < monitor_count),
        ensures
            (monitor_index_spec(display.id@) is None || monitor_index_spec(display.id@)->Some_0
                >= monitor_count) ==> (r matches WinProfileDecision::Fail(e) && e@
                == crate::model::ProfileErrorView::DisplayNotFound(display.id@)),
            query matches Some(q) ==> match q {
                MonitorProfileQuery::Found { name, path, data } => match data {
                    Some(Ok(d)) => r matches WinProfileDecision::Use(info) && info@
                        == candidate_info_view(
                        CandidateFileView { name: name@, path: path@, data: Some(d@) },
                    ),
                    Some(Err(_)) => r matches WinProfileDecision::Use(info) && info@
                        == (ProfileInfoView {
                        name: name@,
                        description: None,
                        file_path: Some(path@),
                        color_space: ColorSpace::Unknown,
                    }),
                    None => if self.config.fallback_enabled {
                        r is NeedFallback
                    } else {
                        r matches WinProfileDecision::Fail(e) && e@
                            == crate::model::ProfileErrorView::ProfileNotAvailable(display.id@)
                    },
                },
                MonitorProfileQuery::Failed(e) => if self.config.fallback_enabled {
                    r is NeedFallback
                } else {
                    r matches WinProfileDecision::Fail(e2) && e2@ == e@
                },
            },
    {
        match query {
            None => WinProfileDecision::Fail(ProfileError::DisplayNotFound(display.id.clone())),
            Some(MonitorProfileQuery::Found { name, path, data }) => {
                match data {
                    Some(Ok(d)) => {
                        if d.len() >= 128 {
                            let color_space = crate::macos::determine_color_space(d.as_slice());
                            WinProfileDecision::Use(
                                ProfileInfo {
                                    name: String::from_str("Windows Display Profile"),
                                    description: None,
                                    file_path: Some(path),
                                    color_space,
                                },
                            )
                        } else {
                            WinProfileDecision::Use(
                                ProfileInfo {
                                    name,
                                    description: None,
                                    file_path: Some(path),
                                    color_space: ColorSpace::Unknown,
                                },
                            )
                        }
                    },
                    Some(Err(_)) => WinProfileDecision::Use(
                        ProfileInfo {
                            name,
                            description: None,
                            file_path: Some(path),
                            color_space: ColorSpace::Unknown,
                        },
                    ),
                    None => {
                        if self.config.fallback_enabled {
                            WinProfileDecision::NeedFallback
                        } else {
                            WinProfileDecision::Fail(
                                ProfileError::ProfileNotAvailable(display.id.clone()),
                            )
                        }
                    },
                }
            },
            Some(MonitorProfileQuery::Failed(e)) => {
                if self.config.fallback_enabled {
                    WinProfileDecision::NeedFallback
                } else {
                    WinProfileDecision::Fail(e)
                }
            },
        }
    }

    /// The file a raw-bytes request reads: the profile's backing file,
    /// whose absence means the profile is unavailable rather than an I/O
    /// failure.
    pub fn require_profile_file(&self, info: &ProfileInfo) -> (r: Result<String, ProfileError>)
        ensures
            match info.file_path {
                Some(p) => r matches Ok(s) && s@ == p@,
                None => r matches Err(e) && e@
                    == crate::model::ProfileErrorView::ProfileNotAvailable(
                    "Profile file path not available"@,
                ),
            },
    {
        match &info.file_path {
            Some(p) => Ok(p.clone()),
            None => Err(
                ProfileError::ProfileNotAvailable(
                    String::from_str("Profile file path not available"),
                ),
            ),
        }
    }
}

} // verus!
