//! A scripted in-memory provider. It answers from tables set up by the
//! caller and implements the provider contract exactly, which makes the
//! facade and the engine testable with synthetic data.

use vstd::prelude::*;
use crate::model::{Display, ProfileError, ProfileInfo};
use crate::provider::{
    display_views, first_primary, data_match, display_match, displays_match, profile_match,
    DisplayProfileProvider,
};
use crate::text::str_eq;

verus! {

/// Index of the first entry whose key holds the characters of `id`, or
/// the length when there is none.
pub open spec fn find_key<V>(entries: Seq<(String, V)>, id: Seq<char>) -> int
    decreases entries.len(),
{
    if entries.len() == 0 {
        0
    } else if entries[0].0@ == id {
        0
    } else {
        1 + find_key(entries.skip(1), id)
    }
}

/// The value stored under `id`, when one is.
pub open spec fn lookup<V>(entries: Seq<(String, V)>, id: Seq<char>) -> Option<V> {
    if find_key(entries, id) < entries.len() {
        Some(entries[find_key(entries, id)].1)
    } else {
        None
    }
}

proof fn lemma_find_key_at<V>(entries: Seq<(String, V)>, id: Seq<char>, i: int)
    requires
        0 <= i <= entries.len(),
        forall|j: int| 0 <= j < i ==> (#[trigger] entries[j]).0@ != id,
        i < entries.len() ==> entries[i].0@ == id,
    ensures
        find_key(entries, id) == i,
    decreases i,
{
    if i > 0 {
        let t = entries.skip(1);
        assert(forall|j: int| 0 <= j < i - 1 ==> t[j] == entries[j + 1]);
        assert(i - 1 < t.len() ==> t[i - 1] == entries[i]);
        lemma_find_key_at(t, id, i - 1);
    }
}

/// Index of the entry stored under `id`, as [`find_key`] says.
fn find_entry<V>(entries: &Vec<(String, V)>, id: &str) -> (r: Option<usize>)
    ensures
        match r {
            Some(i) => i < entries@.len() && find_key(entries@, id@) == i,
            None => find_key(entries@, id@) == entries@.len(),
        },
{
    let n: usize = entries.len();
    let mut i: usize = 0;
    while i < n
        invariant
            i <= n,
            n == entries@.len(),
            forall|j: int| 0 <= j < i ==> (#[trigger] entries@[j]).0@ != id@,
        decreases n - i,
    {
        if str_eq(entries[i].0.as_str(), id) {
            proof {
                lemma_find_key_at(entries@, id@, i as int);
            }
            return Some(i);
        }
        i = i + 1;
    }
    proof {
        lemma_find_key_at(entries@, id@, n as int);
    }
    None
}

/// Copies a display list.
pub fn clone_displays(v: &Vec<Display>) -> (r: Vec<Display>)
    ensures
        display_views(r@) == display_views(v@),
        r@.len() == v@.len(),
{
    let mut r: Vec<Display> = Vec::new();
    let mut i: usize = 0;
    while i < v.len()
        invariant
            i <= v@.len(),
            r@.len() == i,
            forall|j: int| 0 <= j < i ==> (#[trigger] r@[j])@ == v@[j]@,
        decreases v.len() - i,
    {
        r.push(v[i].clone());
        i = i + 1;
    }
    proof {
        assert forall|j: int| 0 <= j < v@.len() implies display_views(r@)[j] == display_views(
            v@,
        )[j] by {
            assert(display_views(r@)[j] == r@[j]@);
            assert(display_views(v@)[j] == v@[j]@);
        }
        assert(display_views(r@) =~= display_views(v@));
    }
    r
}

/// Copies a byte vector.
pub fn clone_bytes(v: &Vec<u8>) -> (r: Vec<u8>)
    ensures
        r@ == v@,
{
    let mut r: Vec<u8> = Vec::new();
    let mut i: usize = 0;
    while i < v.len()
        invariant
            i <= v@.len(),
            r@ == v@.take(i as int),
        decreases v.len() - i,
    {
        r.push(v[i]);
        i = i + 1;
        proof {
            assert(v@.take(i as int) =~= v@.take(i - 1).push(v@[i - 1]));
        }
    }
    proof {
        assert(v@.take(v@.len() as int) =~= v@);
    }
    r
}

/// A provider whose answers are scripted: displays, per-display profiles
/// and raw bytes, and per-key failures. A failure stored under a display
/// id overrides that display's tables; failures stored under the names of
/// the two enumeration operations override those.
#[derive(Debug)]
pub struct MockProfileProvider {
    pub displays: Vec<Display>,
    pub profiles: Vec<(String, ProfileInfo)>,
    pub profile_data: Vec<(String, Vec<u8>)>,
    pub failures: Vec<(String, ProfileError)>,
}

impl MockProfileProvider {
    /// A provider with no displays at all.
    pub fn new() -> (r: Self)
        ensures
            r.displays@.len() == 0,
            r.profiles@.len() == 0,
            r.profile_data@.len() == 0,
            r.failures@.len() == 0,
    {
        MockProfileProvider {
            displays: Vec::new(),
            profiles: Vec::new(),
            profile_data: Vec::new(),
            failures: Vec::new(),
        }
    }

    /// A provider scripted with two displays, their profiles and minimal
    /// valid ICC bytes: a primary sRGB display and a secondary P3 one.
    pub fn with_test_data() -> (r: Self)
        ensures
            r.displays@.len() == 2,
            r.displays@[0]@.id == "primary"@,
            r.displays@[0]@.is_primary,
            r.displays@[1]@.id == "secondary"@,
            !r.displays@[1]@.is_primary,
    {
        let mut provider = MockProfileProvider::new();
        let primary_display = Display {
            id: String::from_str("primary"),
            name: String::from_str("Primary Display"),
            is_primary: true,
        };
        let primary_profile = ProfileInfo {
            name: String::from_str("sRGB IEC61966-2.1"),
            description: Some(String::from_str("Standard RGB color space")),
            file_path: Some(
                String::from_str("/System/Library/ColorSync/Profiles/sRGB Profile.icc"),
            ),
            color_space: crate::model::ColorSpace::RGB,
        };
        let icc_data = minimal_icc_bytes(4);
        provider.add_display(primary_display);
        provider.set_profile("primary", primary_profile);
        provider.set_profile_data("primary", icc_data);
        let secondary_display = Display {
            id: String::from_str("secondary"),
            name: String::from_str("Secondary Display"),
            is_primary: false,
        };
        let secondary_profile = ProfileInfo {
            name: String::from_str("Display P3"),
            description: Some(String::from_str("Display P3 color space")),
            file_path: Some(
                String::from_str("/System/Library/ColorSync/Profiles/Display P3.icc"),
            ),
            color_space: crate::model::ColorSpace::RGB,
        };
        let p3_icc_data = minimal_icc_bytes(8);
        provider.add_display(secondary_display);
        provider.set_profile("secondary", secondary_profile);
        provider.set_profile_data("secondary", p3_icc_data);
        provider
    }

    /// Adds a display at the end of the enumeration order.
    pub fn add_display(&mut self, display: Display)
        ensures
            final(self).displays@ == old(self).displays@.push(display),
            final(self).profiles@ == old(self).profiles@,
            final(self).profile_data@ == old(self).profile_data@,
            final(self).failures@ == old(self).failures@,
    {
        self.displays.push(display);
    }

    /// Scripts the profile answered for a display id; a later entry for
    /// the same id wins.
    pub fn set_profile(&mut self, display_id: &str, profile: ProfileInfo)
        ensures
            final(self).profiles@.len() == old(self).profiles@.len() + 1,
            final(self).profiles@[0].0@ == display_id@,
            final(self).profiles@[0].1 == profile,
            final(self).profiles@.skip(1) == old(self).profiles@,
            final(self).displays@ == old(self).displays@,
            final(self).profile_data@ == old(self).profile_data@,
            final(self).failures@ == old(self).failures@,
    {
        self.profiles.insert(0, (String::from_str(display_id), profile));
        proof {
            assert(final(self).profiles@.skip(1) =~= old(self).profiles@);
        }
    }

    /// Scripts the raw bytes answered for a display id.
    pub fn set_profile_data(&mut self, display_id: &str, data: Vec<u8>)
        ensures
            final(self).profile_data@.len() == old(self).profile_data@.len() + 1,
            final(self).profile_data@[0].0@ == display_id@,
            final(self).profile_data@[0].1 == data,
            final(self).profile_data@.skip(1) == old(self).profile_data@,
            final(self).displays@ == old(self).displays@,
            final(self).profiles@ == old(self).profiles@,
            final(self).failures@ == old(self).failures@,
    {
        self.profile_data.insert(0, (String::from_str(display_id), data));
        proof {
            assert(final(self).profile_data@.skip(1) =~= old(self).profile_data@);
        }
    }

    /// Scripts a failure for a display id, or for one of the enumeration
    /// operations under its name.
    pub fn set_failure(&mut self, display_id: &str, error: ProfileError)
        ensures
            final(self).failures@.len() == old(self).failures@.len() + 1,
            final(self).failures@[0].0@ == display_id@,
            final(self).failures@[0].1 == error,
            final(self).failures@.skip(1) == old(self).failures@,
            final(self).displays@ == old(self).displays@,
            final(self).profiles@ == old(self).profiles@,
            final(self).profile_data@ == old(self).profile_data@,
    {
        self.failures.insert(0, (String::from_str(display_id), error));
        proof {
            assert(final(self).failures@.skip(1) =~= old(self).failures@);
        }
    }

    /// Removes every display and every scripted answer.
    pub fn clear_displays(&mut self)
        ensures
            final(self).displays@.len() == 0,
            final(self).profiles@.len() == 0,
            final(self).profile_data@.len() == 0,
            final(self).failures@.len() == 0,
    {
        self.displays.clear();
        self.profiles.clear();
        self.profile_data.clear();
        self.failures.clear();
    }
}

/// Appends `n` zero bytes.
fn push_zero_bytes(v: &mut Vec<u8>, n: usize)
    ensures
        final(v)@.len() == old(v)@.len() + n,
{
    let mut i: usize = 0;
    while i < n
        invariant
            i <= n,
            v@.len() == old(v)@.len() + i,
        decreases n - i,
    {
        v.push(0);
        i = i + 1;
    }
}

/// A minimal valid 128-byte ICC header for a display profile: declared
/// size `size_hi * 256`, device class `mntr`, colour space `RGB `,
/// connection space `XYZ `, all else zero.
fn minimal_icc_bytes(size_hi: u8) -> (r: Vec<u8>)
    ensures
        r@.len() == 128,
{
    let mut v: Vec<u8> = Vec::new();
    v.push(0);
    v.push(0);
    v.push(size_hi);
    v.push(0);
    push_zero_bytes(&mut v, 8);
    v.push(109);  // m
    v.push(110);  // n
    v.push(116);  // t
    v.push(114);  // r
    v.push(82);  // R
    v.push(71);  // G
    v.push(66);  // B
    v.push(32);  // space
    v.push(88);  // X
    v.push(89);  // Y
    v.push(90);  // Z
    v.push(32);  // space
    push_zero_bytes(&mut v, 104);
    v
}

impl Default for MockProfileProvider {
    /// The default mock has no displays.
    fn default() -> (r: Self)
        ensures
            r.displays@.len() == 0,
            r.profiles@.len() == 0,
            r.profile_data@.len() == 0,
            r.failures@.len() == 0,
    {
        MockProfileProvider::new()
    }
}

impl DisplayProfileProvider for MockProfileProvider {
    open spec fn displays_spec(&self) -> Result<
        Seq<crate::model::DisplayView>,
        crate::model::ProfileErrorView,
    > {
        match lookup(self.failures@, "get_displays"@) {
            Some(e) => Err(e@),
            None => Ok(display_views(self.displays@)),
        }
    }

    open spec fn primary_spec(&self) -> Result<
        crate::model::DisplayView,
        crate::model::ProfileErrorView,
    > {
        match lookup(self.failures@, "get_primary_display"@) {
            Some(e) => Err(e@),
            None => {
                if first_primary(display_views(self.displays@)) < self.displays@.len() {
                    Ok(display_views(self.displays@)[first_primary(display_views(self.displays@))])
                } else {
                    Err(
                        crate::model::ProfileErrorView::DisplayNotFound(
                            "No primary display found"@,
                        ),
                    )
                }
            },
        }
    }

    open spec fn profile_spec(&self, id: Seq<char>) -> Result<
        crate::model::ProfileInfoView,
        crate::model::ProfileErrorView,
    > {
        match lookup(self.failures@, id) {
            Some(e) => Err(e@),
            None => match lookup(self.profiles@, id) {
                Some(p) => Ok(p@),
                None => Err(crate::model::ProfileErrorView::ProfileNotAvailable(id)),
            },
        }
    }

    open spec fn profile_data_spec(&self, id: Seq<char>) -> Result<
        Seq<u8>,
        crate::model::ProfileErrorView,
    > {
        match lookup(self.failures@, id) {
            Some(e) => Err(e@),
            None => match lookup(self.profile_data@, id) {
                Some(d) => Ok(d@),
                None => Err(crate::model::ProfileErrorView::ProfileNotAvailable(id)),
            },
        }
    }

    fn get_displays(&self) -> (r: Result<Vec<Display>, ProfileError>)
        ensures
            displays_match(r, self.displays_spec()),
    {
        match find_entry(&self.failures, "get_displays") {
            Some(i) => Err(self.failures[i].1.clone()),
            None => Ok(clone_displays(&self.displays)),
        }
    }

    fn get_primary_display(&self) -> (r: Result<Display, ProfileError>)
        ensures
            display_match(r, self.primary_spec()),
    {
        match find_entry(&self.failures, "get_primary_display") {
            Some(i) => Err(self.failures[i].1.clone()),
            None => match crate::provider::find_primary(&self.displays) {
                Some(i) => Ok(self.displays[i].clone()),
                None => Err(
                    ProfileError::DisplayNotFound(String::from_str("No primary display found")),
                ),
            },
        }
    }

    fn get_profile(&self, display: &Display) -> (r: Result<ProfileInfo, ProfileError>)
        ensures
            profile_match(r, self.profile_spec(display.id@)),
    {
        match find_entry(&self.failures, display.id.as_str()) {
            Some(i) => Err(self.failures[i].1.clone()),
            None => match find_entry(&self.profiles, display.id.as_str()) {
                Some(i) => Ok(self.profiles[i].1.clone()),
                None => Err(ProfileError::ProfileNotAvailable(display.id.clone())),
            },
        }
    }

    fn get_profile_data(&self, display: &Display) -> (r: Result<Vec<u8>, ProfileError>)
        ensures
            data_match(r, self.profile_data_spec(display.id@)),
    {
        match find_entry(&self.failures, display.id.as_str()) {
            Some(i) => Err(self.failures[i].1.clone()),
            None => match find_entry(&self.profile_data, display.id.as_str()) {
                Some(i) => Ok(clone_bytes(&self.profile_data[i].1)),
                None => Err(ProfileError::ProfileNotAvailable(display.id.clone())),
            },
        }
    }
}

} // verus!
