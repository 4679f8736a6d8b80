//! The Linux backend logic: parsing the colour-management tool's output,
//! mapping its devices to displays, and the filesystem fallback. The
//! subprocess and message-bus calls themselves stay outside the library;
//! everything here is a pure function of their recorded output.

use vstd::prelude::*;
use crate::model::{
    at_most_one_primary, ColorSpace, Display, DisplayView, ProfileConfig, ProfileError,
    ProfileInfo,
};
use crate::text::{
    begins_with, chars_of, contains_seq, contains_lit, dec_spec, find_char, index_of_char,
    lower_chars, lower_spec, prefix_to, split_lines, split_lines_spec, string_of, starts_with_spec,
    suffix_from, trim_chars, trim_spec, u64_to_chars, views_of,
};

verus! {

/// The mathematical value of a [`ColormgrDevice`].
#[verifier::ext_equal]
pub struct DeviceView {
    pub id: Seq<char>,
    pub kind: Seq<char>,
    pub model: Seq<char>,
    pub vendor: Seq<char>,
    pub serial: Seq<char>,
    pub profiles: Seq<Seq<char>>,
}

/// One device as the colour-management tool reports it.
#[derive(Debug)]
pub struct ColormgrDevice {
    pub id: String,
    pub kind: String,
    pub model: String,
    pub vendor: String,
    pub serial: String,
    pub profiles: Vec<String>,
}

impl View for ColormgrDevice {
    type V = DeviceView;

    open spec fn view(&self) -> DeviceView {
        DeviceView {
            id: self.id@,
            kind: self.kind@,
            model: self.model@,
            vendor: self.vendor@,
            serial: self.serial@,
            profiles: self.profiles@.map_values(|p: String| p@),
        }
    }
}

/// The views of a device sequence.
pub open spec fn device_views(s: Seq<ColormgrDevice>) -> Seq<DeviceView> {
    s.map_values(|d: ColormgrDevice| d@)
}

/// The view of an optional device.
pub open spec fn opt_device_view(o: Option<ColormgrDevice>) -> Option<DeviceView> {
    match o {
        Some(d) => Some(d@),
        None => None,
    }
}

/// A device freshly opened by a `Device ID:` line.
pub open spec fn fresh_device(id: Seq<char>) -> DeviceView {
    DeviceView {
        id,
        kind: Seq::empty(),
        model: Seq::empty(),
        vendor: Seq::empty(),
        serial: Seq::empty(),
        profiles: Seq::empty(),
    }
}

/// The text of the second colon-separated field of `t`, trimmed: what a
/// `Profile N: id` line carries.
pub open spec fn second_field(t: Seq<char>) -> Seq<char> {
    trim_spec(
        t.skip(index_of_char(t, ':') + 1).take(
            index_of_char(t.skip(index_of_char(t, ':') + 1), ':'),
        ),
    )
}

/// One line of `get-devices` output applied to the parse state: a
/// `Device ID:` line closes the device under construction and opens a
/// fresh one; property lines fill the device under construction; every
/// other line changes nothing.
pub open spec fn parse_step(
    devs: Seq<DeviceView>,
    cur: Option<DeviceView>,
    line: Seq<char>,
) -> (Seq<DeviceView>, Option<DeviceView>) {
    let t = trim_spec(line);
    if starts_with_spec(t, "Device ID:"@) {
        (flush_device(devs, cur), Some(fresh_device(trim_spec(t.skip(10)))))
    } else {
        match cur {
            None => (devs, None),
            Some(d) => {
                if starts_with_spec(t, "Kind:"@) {
                    (devs, Some(DeviceView { kind: trim_spec(t.skip(5)), ..d }))
                } else if starts_with_spec(t, "Model:"@) {
                    (devs, Some(DeviceView { model: trim_spec(t.skip(6)), ..d }))
                } else if starts_with_spec(t, "Vendor:"@) {
                    (devs, Some(DeviceView { vendor: trim_spec(t.skip(7)), ..d }))
                } else if starts_with_spec(t, "Serial:"@) {
                    (devs, Some(DeviceView { serial: trim_spec(t.skip(7)), ..d }))
                } else if starts_with_spec(t, "Profile "@) && index_of_char(t, ':') < t.len() {
                    (devs, Some(DeviceView { profiles: d.profiles.push(second_field(t)), ..d }))
                } else {
                    (devs, Some(d))
                }
            },
        }
    }
}

/// The device under construction appended to the finished ones.
pub open spec fn flush_device(devs: Seq<DeviceView>, cur: Option<DeviceView>) -> Seq<DeviceView> {
    match cur {
        Some(d) => devs.push(d),
        None => devs,
    }
}

/// The parse state after all lines.
pub open spec fn parse_lines(
    devs: Seq<DeviceView>,
    cur: Option<DeviceView>,
    lines: Seq<Seq<char>>,
) -> (Seq<DeviceView>, Option<DeviceView>)
    decreases lines.len(),
{
    if lines.len() == 0 {
        (devs, cur)
    } else {
        let s = parse_step(devs, cur, lines[0]);
        parse_lines(s.0, s.1, lines.skip(1))
    }
}

/// A device whose kind names a display, case-folded.
pub open spec fn is_display_device(d: DeviceView) -> bool {
    contains_seq(lower_spec(d.kind), "display"@)
}

/// The display devices of `s`, in order.
pub open spec fn keep_displays(s: Seq<DeviceView>) -> Seq<DeviceView>
    decreases s.len(),
{
    if s.len() == 0 {
        Seq::empty()
    } else if is_display_device(s[0]) {
        seq![s[0]] + keep_displays(s.skip(1))
    } else {
        keep_displays(s.skip(1))
    }
}

/// What parsing `get-devices` output yields: the devices in reporting
/// order, reduced to those of display kind.
pub open spec fn parse_devices_spec(s: Seq<char>) -> Seq<DeviceView> {
    keep_displays(
        flush_device(
            parse_lines(Seq::empty(), None, split_lines_spec(s)).0,
            parse_lines(Seq::empty(), None, split_lines_spec(s)).1,
        ),
    )
}

fn apply_line(
    devices: &mut Vec<ColormgrDevice>,
    current: Option<ColormgrDevice>,
    raw: &Vec<char>,
) -> (r: Option<ColormgrDevice>)
    ensures
        device_views(final(devices)@) == parse_step(
            device_views(old(devices)@),
            opt_device_view(current),
            raw@,
        ).0,
        opt_device_view(r) == parse_step(
            device_views(old(devices)@),
            opt_device_view(current),
            raw@,
        ).1,
{
    proof {
        reveal_strlit("Device ID:");
        reveal_strlit("Kind:");
        reveal_strlit("Model:");
        reveal_strlit("Vendor:");
        reveal_strlit("Serial:");
        reveal_strlit("Profile ");
    }
    let t = trim_chars(raw);
    if begins_with(&t, "Device ID:") {
        let ghost before = devices@;
        match current {
            Some(d) => {
                devices.push(d);
                proof {
                    assert(device_views(devices@) =~= device_views(before).push(
                        devices@[before.len() as int]@,
                    ));
                }
            },
            None => {},
        }
        let tail = suffix_from(&t, 10);
        let idv = trim_chars(&tail);
        let nd = ColormgrDevice {
            id: string_of(&idv),
            kind: String::new(),
            model: String::new(),
            vendor: String::new(),
            serial: String::new(),
            profiles: Vec::new(),
        };
        proof {
            assert(nd@.profiles =~= Seq::<Seq<char>>::empty());
            assert(nd@ =~= fresh_device(trim_spec(t@.skip(10))));
        }
        Some(nd)
    } else {
        match current {
            None => None,
            Some(d) => {
                let mut d = d;
                if begins_with(&t, "Kind:") {
                    let tail = suffix_from(&t, 5);
                    let v = trim_chars(&tail);
                    d.kind = string_of(&v);
                    Some(d)
                } else if begins_with(&t, "Model:") {
                    let tail = suffix_from(&t, 6);
                    let v = trim_chars(&tail);
                    d.model = string_of(&v);
                    Some(d)
                } else if begins_with(&t, "Vendor:") {
                    let tail = suffix_from(&t, 7);
                    let v = trim_chars(&tail);
                    d.vendor = string_of(&v);
                    Some(d)
                } else if begins_with(&t, "Serial:") {
                    let tail = suffix_from(&t, 7);
                    let v = trim_chars(&tail);
                    d.serial = string_of(&v);
                    Some(d)
                } else if begins_with(&t, "Profile ") {
                    let tl: usize = t.len();
                    match find_char(&t, ':') {
                        Some(ci) => {
                            proof {
                                assert(ci < tl);
                            }
                            let rest = suffix_from(&t, ci + 1);
                            let j: usize = match find_char(&rest, ':') {
                                Some(j) => j,
                                None => rest.len(),
                            };
                            let head = prefix_to(&rest, j);
                            let seg = trim_chars(&head);
                            let ghost oldprofiles = d.profiles@;
                            d.profiles.push(string_of(&seg));
                            proof {
                                assert(rest@.take(j as int) == rest@.take(
                                    index_of_char(rest@, ':'),
                                ));
                                assert(d.profiles@.map_values(|p: String| p@)
                                    =~= oldprofiles.map_values(|p: String| p@).push(second_field(
                                    t@,
                                )));
                            }
                            Some(d)
                        },
                        None => Some(d),
                    }
                } else {
                    Some(d)
                }
            },
        }
    }
}

/// The mathematical value of a [`ColormgrProfile`].
#[verifier::ext_equal]
pub struct ColormgrProfileView {
    pub id: Seq<char>,
    pub filename: Option<Seq<char>>,
    pub title: Option<Seq<char>>,
    pub kind: Seq<char>,
    pub colorspace: Seq<char>,
}

/// One profile as the colour-management tool reports it.
#[derive(Debug)]
pub struct ColormgrProfile {
    pub id: String,
    pub filename: Option<String>,
    pub title: Option<String>,
    pub kind: String,
    pub colorspace: String,
}

impl View for ColormgrProfile {
    type V = ColormgrProfileView;

    open spec fn view(&self) -> ColormgrProfileView {
        ColormgrProfileView {
            id: self.id@,
            filename: crate::model::opt_view(self.filename),
            title: crate::model::opt_view(self.title),
            kind: self.kind@,
            colorspace: self.colorspace@,
        }
    }
}

/// One line of `get-profile` output applied to the profile under
/// construction: an empty or `(none)` filename and an empty title leave
/// their fields untouched.
pub open spec fn profile_step(p: ColormgrProfileView, line: Seq<char>) -> ColormgrProfileView {
    let t = trim_spec(line);
    if starts_with_spec(t, "Filename:"@) {
        if trim_spec(t.skip(9)).len() > 0 && trim_spec(t.skip(9)) != "(none)"@ {
            ColormgrProfileView { filename: Some(trim_spec(t.skip(9))), ..p }
        } else {
            p
        }
    } else if starts_with_spec(t, "Title:"@) {
        if trim_spec(t.skip(6)).len() > 0 {
            ColormgrProfileView { title: Some(trim_spec(t.skip(6))), ..p }
        } else {
            p
        }
    } else if starts_with_spec(t, "Kind:"@) {
        ColormgrProfileView { kind: trim_spec(t.skip(5)), ..p }
    } else if starts_with_spec(t, "Colorspace:"@) {
        ColormgrProfileView { colorspace: trim_spec(t.skip(11)), ..p }
    } else {
        p
    }
}

/// The profile after all lines.
pub open spec fn profile_lines(p: ColormgrProfileView, lines: Seq<Seq<char>>) -> ColormgrProfileView
    decreases lines.len(),
{
    if lines.len() == 0 {
        p
    } else {
        profile_lines(profile_step(p, lines[0]), lines.skip(1))
    }
}

/// What parsing `get-profile` output yields for the profile id `id`.
pub open spec fn parse_profile_spec(s: Seq<char>, id: Seq<char>) -> ColormgrProfileView {
    profile_lines(
        ColormgrProfileView {
            id,
            filename: None,
            title: None,
            kind: Seq::empty(),
            colorspace: Seq::empty(),
        },
        split_lines_spec(s),
    )
}

/// The colour space that a colour-management colorspace word denotes,
/// case-folded: `rgb` and `srgb` are RGB, `lab` is Lab, all else is
/// unknown.
pub open spec fn colorspace_spec(s: Seq<char>) -> ColorSpace {
    if lower_spec(s) == "rgb"@ || lower_spec(s) == "srgb"@ {
        ColorSpace::RGB
    } else if lower_spec(s) == "lab"@ {
        ColorSpace::Lab
    } else {
        ColorSpace::Unknown
    }
}

/// The name under which a converted device surfaces: vendor and model
/// where known, else a generic name carrying its position.
pub open spec fn device_display_name(d: DeviceView, index: int) -> Seq<char> {
    if d.model.len() > 0 {
        if d.vendor.len() > 0 {
            d.vendor + " "@ + d.model
        } else {
            d.model
        }
    } else {
        "Display "@ + dec_spec(index + 1)
    }
}

/// The display that the device at position `index` converts to. The
/// first device is taken as primary: a deliberate, documented heuristic,
/// not an assurance about the operating system's own notion.
pub open spec fn converted_display(d: DeviceView, index: int) -> DisplayView {
    DisplayView {
        id: d.id,
        name: device_display_name(d, index),
        is_primary: index == 0,
    }
}

/// The name of a path's file, after the last slash.
pub open spec fn file_name_part(p: Seq<char>) -> Seq<char> {
    p.skip(crate::text::last_index_of_char(p, '/') + 1)
}

/// The file name without its extension; an empty name stands in with a
/// generic label.
pub open spec fn file_stem_spec(p: Seq<char>) -> Seq<char> {
    if file_name_part(p).len() == 0 {
        "Unknown Profile"@
    } else if crate::text::last_index_of_char(file_name_part(p), '.') > 0 {
        file_name_part(p).take(crate::text::last_index_of_char(file_name_part(p), '.'))
    } else {
        file_name_part(p)
    }
}

/// The Linux provider: holds the configuration that steers the channel
/// preference and fallback policy. The outside calls of its operations —
/// the subprocess, the message bus, the directory scan — happen beyond
/// the library, which supplies every decision over their output.
#[derive(Debug)]
pub struct LinuxProfileProvider {
    pub config: ProfileConfig,
}

impl LinuxProfileProvider {
    /// A provider under the default configuration.
    pub fn new() -> (r: Self)
        ensures
            r.config.linux_prefer_dbus,
            r.config.fallback_enabled,
    {
        LinuxProfileProvider { config: ProfileConfig::default() }
    }

    /// A provider under the given configuration.
    pub fn with_config(config: ProfileConfig) -> (r: Self)
        ensures
            r.config == config,
    {
        LinuxProfileProvider { config }
    }

    /// Whether the message-bus channel is to be tried first: only when
    /// the configuration prefers it and the service is reachable.
    pub fn should_use_dbus(&self, dbus_available: bool) -> (r: bool)
        ensures
            r == (self.config.linux_prefer_dbus && dbus_available),
    {
        self.config.linux_prefer_dbus && dbus_available
    }

    /// Parses `get-devices` output into the display devices it reports,
    /// in order, as [`parse_devices_spec`] states. Malformed lines are
    /// ignored, so parsing itself never fails.
    pub fn parse_colormgr_devices(&self, output: &str) -> (r: Result<
        Vec<ColormgrDevice>,
        ProfileError,
    >)
        ensures
            r matches Ok(v) && device_views(v@) == parse_devices_spec(output@),
    {
        let chars = chars_of(output);
        let lines = split_lines(&chars);
        let ghost lvs = views_of(lines@);
        let mut devices: Vec<ColormgrDevice> = Vec::new();
        let mut current: Option<ColormgrDevice> = None;
        let mut i: usize = 0;
        proof {
            assert(device_views(devices@) =~= Seq::<DeviceView>::empty());
            assert(lvs.skip(0) =~= lvs);
        }
        while i < lines.len()
            invariant
                i <= lines@.len(),
                lvs == views_of(lines@),
                parse_lines(device_views(devices@), opt_device_view(current), lvs.skip(i as int))
                    == parse_lines(Seq::empty(), None, lvs),
            decreases lines.len() - i,
        {
            proof {
                assert(lvs.skip(i as int)[0] == lines@[i as int]@);
                assert(lvs.skip(i as int).skip(1) =~= lvs.skip(i + 1));
            }
            current = apply_line(&mut devices, current, &lines[i]);
            i = i + 1;
        }
        proof {
            assert(lvs.skip(i as int) =~= Seq::<Seq<char>>::empty());
        }
        match current {
            Some(d) => {
                let ghost before = devices@;
                devices.push(d);
                proof {
                    assert(device_views(devices@) =~= device_views(before).push(
                        devices@[before.len() as int]@,
                    ));
                }
            },
            None => {},
        }
        let ghost all = device_views(devices@);
        proof {
            assert(all == flush_device(
                parse_lines(Seq::empty(), None, split_lines_spec(output@)).0,
                parse_lines(Seq::empty(), None, split_lines_spec(output@)).1,
            ));
            assert(all.skip(0) =~= all);
        }
        let n: usize = devices.len();
        let mut rest = devices;
        let mut result: Vec<ColormgrDevice> = Vec::new();
        let mut k: usize = 0;
        proof {
            assert(device_views(result@) =~= Seq::<DeviceView>::empty());
            assert(device_views(result@) + keep_displays(all) =~= keep_displays(all));
        }
        while rest.len() > 0
            invariant
                k + rest@.len() == n,
                n == all.len(),
                device_views(rest@) == all.skip(k as int),
                keep_displays(all) == device_views(result@) + keep_displays(all.skip(k as int)),
            decreases rest@.len(),
        {
            let ghost before_rest = rest@;
            let d = rest.remove(0);
            proof {
                assert forall|j: int| 0 <= j < rest@.len() implies device_views(rest@)[j]
                    == all.skip(k + 1)[j] by {
                    assert(rest@[j] == before_rest[j + 1]);
                    assert(device_views(before_rest)[j + 1] == before_rest[j + 1]@);
                    assert(device_views(rest@)[j] == rest@[j]@);
                }
                assert(device_views(rest@) =~= all.skip(k + 1));
                assert(device_views(before_rest)[0] == before_rest[0]@);
                assert(all.skip(k as int)[0] == d@);
                assert(all.skip(k as int).skip(1) =~= all.skip(k + 1));
            }
            let kindv = chars_of(d.kind.as_str());
            let lk = lower_chars(&kindv);
            if contains_lit(&lk, "display") {
                let ghost done = result@;
                result.push(d);
                proof {
                    assert(device_views(result@) =~= device_views(done).push(
                        result@[done.len() as int]@,
                    ));
                    assert(keep_displays(all.skip(k as int)) == seq![all.skip(k as int)[0]]
                        + keep_displays(all.skip(k + 1)));
                    assert(device_views(done) + keep_displays(all.skip(k as int))
                        =~= device_views(result@) + keep_displays(all.skip(k + 1)));
                }
            } else {
                proof {
                    assert(keep_displays(all.skip(k as int)) == keep_displays(all.skip(k + 1)));
                }
            }
            k = k + 1;
        }
        proof {
            assert(all.skip(k as int) =~= Seq::<DeviceView>::empty());
            assert(device_views(result@) + keep_displays(all.skip(k as int))
                =~= device_views(result@));
        }
        Ok(result)
    }

    /// Parses `get-profile` output for the profile id `profile_id`, as
    /// [`parse_profile_spec`] states; parsing itself never fails.
    pub fn parse_colormgr_profile(&self, output: &str, profile_id: &str) -> (r: Result<
        ColormgrProfile,
        ProfileError,
    >)
        ensures
            r matches Ok(p) && p@ == parse_profile_spec(output@, profile_id@),
    {
        let chars = chars_of(output);
        let lines = split_lines(&chars);
        let ghost lvs = views_of(lines@);
        let mut profile = ColormgrProfile {
            id: String::from_str(profile_id),
            filename: None,
            title: None,
            kind: String::new(),
            colorspace: String::new(),
        };
        proof {
            assert(profile@ =~= ColormgrProfileView {
                id: profile_id@,
                filename: None,
                title: None,
                kind: Seq::empty(),
                colorspace: Seq::empty(),
            });
            assert(lvs.skip(0) =~= lvs);
        }
        let ghost start = profile@;
        let mut i: usize = 0;
        while i < lines.len()
            invariant
                i <= lines@.len(),
                lvs == views_of(lines@),
                profile_lines(profile@, lvs.skip(i as int)) == profile_lines(start, lvs),
            decreases lines.len() - i,
        {
            proof {
                assert(lvs.skip(i as int)[0] == lines@[i as int]@);
                assert(lvs.skip(i as int).skip(1) =~= lvs.skip(i + 1));
            }
            proof {
                reveal_strlit("Filename:");
                reveal_strlit("Title:");
                reveal_strlit("Kind:");
                reveal_strlit("Colorspace:");
            }
            let line = &lines[i];
            let t = trim_chars(line);
            if begins_with(&t, "Filename:") {
                let tail = suffix_from(&t, 9);
                let v = trim_chars(&tail);
                if v.len() > 0 && !crate::text::eq_lit(&v, "(none)") {
                    profile.filename = Some(string_of(&v));
                }
            } else if begins_with(&t, "Title:") {
                let tail = suffix_from(&t, 6);
                let v = trim_chars(&tail);
                if v.len() > 0 {
                    profile.title = Some(string_of(&v));
                }
            } else if begins_with(&t, "Kind:") {
                let tail = suffix_from(&t, 5);
                let v = trim_chars(&tail);
                profile.kind = string_of(&v);
            } else if begins_with(&t, "Colorspace:") {
                let tail = suffix_from(&t, 11);
                let v = trim_chars(&tail);
                profile.colorspace = string_of(&v);
            }
            i = i + 1;
        }
        proof {
            assert(lvs.skip(i as int) =~= Seq::<Seq<char>>::empty());
        }
        Ok(profile)
    }

    /// Maps a colour-management colorspace word to the colour space it
    /// denotes, as [`colorspace_spec`] states.
    pub fn parse_colorspace(&self, colorspace: &str) -> (r: ColorSpace)
        ensures
            r == colorspace_spec(colorspace@),
    {
        let chars = chars_of(colorspace);
        let low = lower_chars(&chars);
        if crate::text::eq_lit(&low, "rgb") || crate::text::eq_lit(&low, "srgb") {
            ColorSpace::RGB
        } else if crate::text::eq_lit(&low, "lab") {
            ColorSpace::Lab
        } else {
            ColorSpace::Unknown
        }
    }

    /// Converts the reported devices to displays, in order; the first is
    /// taken as primary, so no two displays are. An empty device list is
    /// a system-level failure: no displays at all is abnormal.
    pub fn convert_devices_to_displays(&self, colormgr_devices: Vec<ColormgrDevice>) -> (r: Result<
        Vec<Display>,
        ProfileError,
    >)
        ensures
            colormgr_devices@.len() == 0 ==> (r matches Err(e) && e@
                == crate::model::ProfileErrorView::SystemError("No display devices found"@)),
            colormgr_devices@.len() > 0 ==> (r matches Ok(v) && v@.len()
                == colormgr_devices@.len() && (forall|i: int|
                0 <= i < v@.len() ==> (#[trigger] v@[i])@ == converted_display(
                    colormgr_devices@[i]@,
                    i,
                )) && at_most_one_primary(v@)),
    {
        let n: usize = colormgr_devices.len();
        if n == 0 {
            return Err(
                ProfileError::SystemError(String::from_str("No display devices found")),
            );
        }
        let ghost all = device_views(colormgr_devices@);
        let mut rest = colormgr_devices;
        let mut displays: Vec<Display> = Vec::new();
        let mut index: usize = 0;
        while rest.len() > 0
            invariant
                index + rest@.len() == n,
                n == all.len(),
                device_views(rest@) == all.skip(index as int),
                displays@.len() == index,
                forall|i: int|
                    0 <= i < index ==> (#[trigger] displays@[i])@ == converted_display(all[i], i),
            decreases rest@.len(),
        {
            let ghost before_rest = rest@;
            let device = rest.remove(0);
            proof {
                assert forall|j: int| 0 <= j < rest@.len() implies device_views(rest@)[j]
                    == all.skip(index + 1)[j] by {
                    assert(rest@[j] == before_rest[j + 1]);
                    assert(device_views(before_rest)[j + 1] == before_rest[j + 1]@);
                    assert(device_views(rest@)[j] == rest@[j]@);
                }
                assert(device_views(rest@) =~= all.skip(index + 1));
                assert(device_views(before_rest)[0] == before_rest[0]@);
                assert(all[index as int] == device@);
            }
            proof {
                reveal_strlit(" ");
            }
            let mut name: Vec<char> = Vec::new();
            if device.model.as_str().unicode_len() > 0 {
                if device.vendor.as_str().unicode_len() > 0 {
                    let vendor_chars = chars_of(device.vendor.as_str());
                    let model_chars = chars_of(device.model.as_str());
                    crate::text::append_chars(&mut name, &vendor_chars);
                    name.push(' ');
                    crate::text::append_chars(&mut name, &model_chars);
                    proof {
                        assert(name@ =~= device@.vendor + " "@ + device@.model);
                    }
                } else {
                    let model_chars = chars_of(device.model.as_str());
                    crate::text::append_chars(&mut name, &model_chars);
                    proof {
                        assert(name@ =~= device@.model);
                    }
                }
            } else {
                let label = chars_of("Display ");
                let digits = u64_to_chars((index + 1) as u64);
                crate::text::append_chars(&mut name, &label);
                crate::text::append_chars(&mut name, &digits);
                proof {
                    assert(name@ =~= "Display "@ + dec_spec(index + 1));
                }
            }
            let display = Display {
                id: device.id,
                name: string_of(&name),
                is_primary: index == 0,
            };
            displays.push(display);
            index = index + 1;
        }
        proof {
            assert forall|i: int, j: int|
                0 <= i < displays@.len() && 0 <= j < displays@.len() && (
                #[trigger] displays@[i])@.is_primary && (#[trigger] displays@[j])@.is_primary
                implies i == j by {
                assert(displays@[i]@ == converted_display(all[i], i));
                assert(displays@[j]@ == converted_display(all[j], j));
            }
        }
        Ok(displays)
    }

    /// The synthetic display of the filesystem fallback: when no
    /// structured backend answered but the directory scan found at least
    /// one profile file, one generic primary display stands in; an empty
    /// scan exhausts the chain with a system-level failure.
    pub fn fallback_displays(&self, scanned: &Vec<String>) -> (r: Result<
        Vec<Display>,
        ProfileError,
    >)
        ensures
            scanned@.len() == 0 ==> (r matches Err(e) && e@
                == crate::model::ProfileErrorView::SystemError(
                "No display devices found via any method"@,
            )),
            scanned@.len() > 0 ==> (r matches Ok(v) && v@.len() == 1 && v@[0]@.id
                == "filesystem-fallback"@ && v@[0]@.name == "Generic Display"@
                && v@[0]@.is_primary && at_most_one_primary(v@)),
    {
        if scanned.len() == 0 {
            return Err(
                ProfileError::SystemError(
                    String::from_str("No display devices found via any method"),
                ),
            );
        }
        let mut v: Vec<Display> = Vec::new();
        v.push(
            Display {
                id: String::from_str("filesystem-fallback"),
                name: String::from_str("Generic Display"),
                is_primary: true,
            },
        );
        Ok(v)
    }

    /// The profile of the synthetic fallback display: metadata derived
    /// from the first file the scan found — its stem as the name, no
    /// description, an unknown colour space.
    pub fn fallback_profile(&self, scanned: &Vec<String>) -> (r: Option<ProfileInfo>)
        ensures
            scanned@.len() == 0 ==> r is None,
            scanned@.len() > 0 ==> (r matches Some(info) && info@.name == file_stem_spec(
                scanned@[0]@,
            ) && info@.description is None && info@.file_path == Some(scanned@[0]@)
                && info@.color_space == ColorSpace::Unknown),
    {
        if scanned.len() == 0 {
            return None;
        }
        let path = &scanned[0];
        let stem = file_stem(path.as_str());
        Some(
            ProfileInfo {
                name: stem,
                description: None,
                file_path: Some(path.clone()),
                color_space: ColorSpace::Unknown,
            },
        )
    }

    /// The file a raw-bytes request reads: the profile's backing file,
    /// whose absence means the profile is unavailable for the display,
    /// not an I/O failure.
    pub fn require_profile_file(&self, display: &Display, info: &ProfileInfo) -> (r: Result<
        String,
        ProfileError,
    >)
        ensures
            match info.file_path {
                Some(p) => r matches Ok(s) && s@ == p@,
                None => r matches Err(e) && e@
                    == crate::model::ProfileErrorView::ProfileNotAvailable(
                    "No file path available for display "@ + display.id@,
                ),
            },
    {
        match &info.file_path {
            Some(p) => Ok(p.clone()),
            None => {
                let mut m = String::from_str("No file path available for display ");
                m.append(display.id.as_str());
                Err(ProfileError::ProfileNotAvailable(m))
            },
        }
    }

    /// Builds profile metadata out of a reported profile: its title where
    /// one was reported, else its id; the reported file, if any; and the
    /// colour space its colorspace word denotes.
    pub fn profile_info_from_colormgr(&self, profile: ColormgrProfile) -> (r: ProfileInfo)
        ensures
            r@.name == (match profile@.title {
                Some(t) => t,
                None => profile@.id,
            }),
            r@.description is None,
            r@.file_path == profile@.filename,
            r@.color_space == colorspace_spec(profile@.colorspace),
    {
        let color_space = self.parse_colorspace(profile.colorspace.as_str());
        let name = match profile.title {
            Some(t) => t,
            None => profile.id,
        };
        ProfileInfo { name, description: None, file_path: profile.filename, color_space }
    }
}

/// The file name of `path` without its extension, as [`file_stem_spec`]
/// states.
pub fn file_stem(path: &str) -> (r: String)
    ensures
        r@ == file_stem_spec(path@),
{
    let chars = chars_of(path);
    let cl: usize = chars.len();
    let start: usize = match crate::text::rfind_char(&chars, '/') {
        Some(i) => {
            proof {
                assert(i < cl);
                crate::text::lemma_last_index_of_char_at(chars@, '/', i as int);
            }
            i + 1
        },
        None => {
            proof {
                crate::text::lemma_last_index_of_char_at(chars@, '/', -1);
            }
            0
        },
    };
    let name = suffix_from(&chars, start);
    if name.len() == 0 {
        return String::from_str("Unknown Profile");
    }
    match crate::text::rfind_char(&name, '.') {
        Some(j) => {
            proof {
                crate::text::lemma_last_index_of_char_at(name@, '.', j as int);
            }
            if j > 0 {
                let stem = prefix_to(&name, j);
                string_of(&stem)
            } else {
                string_of(&name)
            }
        },
        None => {
            proof {
                crate::text::lemma_last_index_of_char_at(name@, '.', -1);
            }
            string_of(&name)
        },
    }
}

/// Index of the device whose id holds the characters of `display_id`.
pub fn find_device_index(devices: &Vec<ColormgrDevice>, display_id: &str) -> (r: Option<usize>)
    ensures
        match r {
            Some(i) => i < devices@.len() && devices@[i as int]@.id == display_id@,
            None => forall|j: int| 0 <= j < devices@.len() ==> (#[trigger] devices@[j])@.id
                != display_id@,
        },
{
    let n: usize = devices.len();
    let mut i: usize = 0;
    while i < n
        invariant
            i <= n,
            n == devices@.len(),
            forall|j: int| 0 <= j < i ==> (#[trigger] devices@[j])@.id != display_id@,
        decreases n - i,
    {
        if crate::text::str_eq(devices[i].id.as_str(), display_id) {
            return Some(i);
        }
        i = i + 1;
    }
    None
}

/// The first profile id of a device, where it has one: the tie-break
/// rule is always the first profile in the order the backend reports.
pub fn first_profile_id(device: &ColormgrDevice) -> (r: Option<String>)
    ensures
        device@.profiles.len() == 0 ==> r is None,
        device@.profiles.len() > 0 ==> (r matches Some(s) && s@ == device@.profiles[0]),
{
    if device.profiles.len() > 0 {
        let s = device.profiles[0].clone();
        proof {
            assert(device@.profiles[0] == device.profiles@[0]@);
        }
        Some(s)
    } else {
        None
    }
}

} // verus!
