//! The provider facade: the four uniform operations over a backend
//! provider, defined compositionally, and the aggregate skip rule.

use vstd::prelude::*;
use crate::model::{Display, DisplayView, ProfileError, ProfileErrorView, ProfileInfo,
    ProfileInfoView};

verus! {

/// The views of a sequence of displays.
pub open spec fn display_views(s: Seq<Display>) -> Seq<DisplayView> {
    s.map_values(|d: Display| d@)
}

/// The views of a sequence of display/profile pairs.
pub open spec fn pair_views(s: Seq<(Display, ProfileInfo)>) -> Seq<(DisplayView,
    ProfileInfoView)> {
    s.map_values(|p: (Display, ProfileInfo)| (p.0@, p.1@))
}

/// An answered display list matches its specified value.
pub open spec fn displays_match(
    r: Result<Vec<Display>, ProfileError>,
    s: Result<Seq<DisplayView>, ProfileErrorView>,
) -> bool {
    match (r, s) {
        (Ok(v), Ok(sv)) => display_views(v@) == sv,
        (Err(e), Err(ev)) => e@ == ev,
        _ => false,
    }
}

/// An answered display matches its specified value.
pub open spec fn display_match(
    r: Result<Display, ProfileError>,
    s: Result<DisplayView, ProfileErrorView>,
) -> bool {
    match (r, s) {
        (Ok(d), Ok(dv)) => d@ == dv,
        (Err(e), Err(ev)) => e@ == ev,
        _ => false,
    }
}

/// An answered profile matches its specified value.
pub open spec fn profile_match(
    r: Result<ProfileInfo, ProfileError>,
    s: Result<ProfileInfoView, ProfileErrorView>,
) -> bool {
    match (r, s) {
        (Ok(p), Ok(pv)) => p@ == pv,
        (Err(e), Err(ev)) => e@ == ev,
        _ => false,
    }
}

/// Answered profile bytes match their specified value.
pub open spec fn data_match(
    r: Result<Vec<u8>, ProfileError>,
    s: Result<Seq<u8>, ProfileErrorView>,
) -> bool {
    match (r, s) {
        (Ok(v), Ok(sv)) => v@ == sv,
        (Err(e), Err(ev)) => e@ == ev,
        _ => false,
    }
}

/// A backend provider: enumerates displays and resolves profile metadata
/// and raw profile bytes for a display. Each provider carries spec
/// functions that say what its answers denote, and every operation is
/// bound to them.
pub trait DisplayProfileProvider: Sized {
    /// What enumerating displays answers.
    spec fn displays_spec(&self) -> Result<Seq<DisplayView>, ProfileErrorView>;

    /// What asking for the primary display answers.
    spec fn primary_spec(&self) -> Result<DisplayView, ProfileErrorView>;

    /// What resolving the profile of the display with this id answers.
    spec fn profile_spec(&self, id: Seq<char>) -> Result<ProfileInfoView, ProfileErrorView>;

    /// What reading the raw profile bytes of the display with this id
    /// answers.
    spec fn profile_data_spec(&self, id: Seq<char>) -> Result<Seq<u8>, ProfileErrorView>;

    /// All displays of the system, in enumeration order.
    fn get_displays(&self) -> (r: Result<Vec<Display>, ProfileError>)
        ensures
            displays_match(r, self.displays_spec()),
    ;

    /// The primary display.
    fn get_primary_display(&self) -> (r: Result<Display, ProfileError>)
        ensures
            display_match(r, self.primary_spec()),
    ;

    /// Profile metadata for `display`.
    fn get_profile(&self, display: &Display) -> (r: Result<ProfileInfo, ProfileError>)
        ensures
            profile_match(r, self.profile_spec(display.id@)),
    ;

    /// Raw ICC profile bytes for `display`.
    fn get_profile_data(&self, display: &Display) -> (r: Result<Vec<u8>, ProfileError>)
        ensures
            data_match(r, self.profile_data_spec(display.id@)),
    ;
}

/// The primary display profile: the provider's primary display is asked
/// for, then its profile; the first failure of the two is surfaced.
pub fn get_primary_display_profile<P: DisplayProfileProvider>(provider: &P) -> (r: Result<
    ProfileInfo,
    ProfileError,
>)
    ensures
        match r {
            Ok(info) => provider.primary_spec() matches Ok(d) && provider.profile_spec(d.id)
                matches Ok(iv) && info@ == iv,
            Err(e) => (provider.primary_spec() matches Err(ev) && e@ == ev) || (
            provider.primary_spec() matches Ok(d) && provider.profile_spec(d.id) matches Err(ev)
                && e@ == ev),
        },
{
    let display = match provider.get_primary_display() {
        Ok(d) => d,
        Err(e) => {
            return Err(e);
        },
    };
    provider.get_profile(&display)
}

/// Raw profile bytes of the primary display, composed the same way.
pub fn get_primary_display_profile_data<P: DisplayProfileProvider>(provider: &P) -> (r: Result<
    Vec<u8>,
    ProfileError,
>)
    ensures
        match r {
            Ok(data) => provider.primary_spec() matches Ok(d) && provider.profile_data_spec(d.id)
                matches Ok(bytes) && data@ == bytes,
            Err(e) => (provider.primary_spec() matches Err(ev) && e@ == ev) || (
            provider.primary_spec() matches Ok(d) && provider.profile_data_spec(d.id)
                matches Err(ev) && e@ == ev),
        },
{
    let display = match provider.get_primary_display() {
        Ok(d) => d,
        Err(e) => {
            return Err(e);
        },
    };
    provider.get_profile_data(&display)
}

/// Index of the first display marked primary, or the length when none is.
pub open spec fn first_primary(ds: Seq<DisplayView>) -> int
    decreases ds.len(),
{
    if ds.len() == 0 {
        0
    } else if ds[0].is_primary {
        0
    } else {
        1 + first_primary(ds.skip(1))
    }
}

proof fn lemma_first_primary_at(ds: Seq<DisplayView>, i: int)
    requires
        0 <= i <= ds.len(),
        forall|j: int| 0 <= j < i ==> !(#[trigger] ds[j]).is_primary,
        i < ds.len() ==> ds[i].is_primary,
    ensures
        first_primary(ds) == i,
    decreases i,
{
    if i > 0 {
        let t = ds.skip(1);
        assert(forall|j: int| 0 <= j < i - 1 ==> t[j] == ds[j + 1]);
        assert(i - 1 < t.len() ==> t[i - 1] == ds[i]);
        lemma_first_primary_at(t, i - 1);
    }
}

/// Index of the first display marked primary, as [`first_primary`] says.
pub fn find_primary(displays: &Vec<Display>) -> (r: Option<usize>)
    ensures
        match r {
            Some(i) => i < displays@.len() && first_primary(display_views(displays@)) == i,
            None => first_primary(display_views(displays@)) == displays@.len(),
        },
{
    let ghost dvs = display_views(displays@);
    let n: usize = displays.len();
    let mut i: usize = 0;
    while i < n
        invariant
            i <= n,
            n == displays@.len(),
            dvs == display_views(displays@),
            forall|j: int| 0 <= j < i ==> !(#[trigger] dvs[j]).is_primary,
        decreases n - i,
    {
        if displays[i].is_primary {
            proof {
                assert(dvs[i as int] == displays@[i as int]@);
                lemma_first_primary_at(dvs, i as int);
            }
            return Some(i);
        }
        proof {
            assert(dvs[i as int] == displays@[i as int]@);
        }
        i = i + 1;
    }
    proof {
        lemma_first_primary_at(dvs, n as int);
    }
    None
}

/// The aggregate rule over a display sequence: displays whose profile is
/// merely unavailable are omitted; any other per-display failure aborts
/// the whole aggregate with that error; otherwise each remaining display
/// is paired with its profile, in enumeration order.
pub open spec fn aggregate_spec<P: DisplayProfileProvider>(p: &P, ds: Seq<DisplayView>) -> Result<
    Seq<(DisplayView, ProfileInfoView)>,
    ProfileErrorView,
>
    decreases ds.len(),
{
    if ds.len() == 0 {
        Ok(Seq::empty())
    } else {
        match p.profile_spec(ds[0].id) {
            Ok(info) => match aggregate_spec(p, ds.skip(1)) {
                Ok(rest) => Ok(seq![(ds[0], info)] + rest),
                Err(e) => Err(e),
            },
            Err(ProfileErrorView::ProfileNotAvailable(_)) => aggregate_spec(p, ds.skip(1)),
            Err(e) => Err(e),
        }
    }
}

/// Profiles for all displays: enumeration order is kept, displays without
/// a profile are skipped silently, and any failure other than
/// `ProfileNotAvailable` aborts the aggregate and is returned as-is.
pub fn get_all_display_profiles<P: DisplayProfileProvider>(provider: &P) -> (r: Result<
    Vec<(Display, ProfileInfo)>,
    ProfileError,
>)
    ensures
        match r {
            Ok(pairs) => provider.displays_spec() matches Ok(dvs) && aggregate_spec(provider, dvs)
                matches Ok(s) && pair_views(pairs@) == s,
            Err(e) => (provider.displays_spec() matches Err(ev) && e@ == ev) || (
            provider.displays_spec() matches Ok(dvs) && aggregate_spec(provider, dvs)
                matches Err(ev) && e@ == ev),
        },
{
    let displays = match provider.get_displays() {
        Ok(v) => v,
        Err(e) => {
            return Err(e);
        },
    };
    let ghost dvs = display_views(displays@);
    let mut results: Vec<(Display, ProfileInfo)> = Vec::new();
    let mut i: usize = 0;
    proof {
        assert(dvs.skip(0) =~= dvs);
        assert(pair_views(results@) =~= Seq::<(DisplayView, ProfileInfoView)>::empty());
    }
    let n: usize = displays.len();
    let mut rest = displays;
    while rest.len() > 0
        invariant
            i + rest@.len() == n,
            n == dvs.len(),
            display_views(rest@) == dvs.skip(i as int),
            provider.displays_spec() matches Ok(s) && s == dvs,
            aggregate_spec(provider, dvs) matches Ok(s) ==> aggregate_spec(
                provider,
                dvs.skip(i as int),
            ) matches Ok(t) && s == pair_views(results@) + t,
            aggregate_spec(provider, dvs) matches Err(ev) ==> aggregate_spec(
                provider,
                dvs.skip(i as int),
            ) matches Err(ev2) && ev == ev2,
        decreases rest@.len(),
    {
        let ghost rest_views = dvs.skip(i as int);
        let ghost before_rest = rest@;
        let display = rest.remove(0);
        proof {
            assert(rest@ == before_rest.remove(0));
            assert forall|k: int| 0 <= k < rest@.len() implies display_views(rest@)[k]
                == dvs.skip(i + 1)[k] by {
                assert(rest@[k] == before_rest[k + 1]);
                assert(display_views(before_rest)[k + 1] == before_rest[k + 1]@);
                assert(display_views(rest@)[k] == rest@[k]@);
            }
            assert(display_views(rest@) =~= dvs.skip(i + 1));
            assert(display_views(before_rest)[0] == before_rest[0]@);
            assert(rest_views[0] == display@);
            assert(rest_views.skip(1) =~= dvs.skip(i + 1));
        }
        match provider.get_profile(&display) {
            Ok(profile) => {
                let ghost done = results@;
                results.push((display, profile));
                proof {
                    assert(pair_views(results@) =~= pair_views(done).push(
                        (results@[done.len() as int].0@, results@[done.len() as int].1@),
                    ));
                    if aggregate_spec(provider, dvs) is Ok {
                        let s = aggregate_spec(provider, dvs)->Ok_0;
                        assert(aggregate_spec(provider, rest_views) is Ok);
                        let t = aggregate_spec(provider, rest_views)->Ok_0;
                        assert(s == pair_views(done) + t);
                        let t2 = aggregate_spec(provider, dvs.skip(i + 1))->Ok_0;
                        assert(t == seq![(rest_views[0], provider.profile_spec(
                            rest_views[0].id,
                        )->Ok_0)] + t2);
                        assert(pair_views(done) + t =~= pair_views(results@) + t2);
                    }
                }
            },
            Err(e) => {
                let abort = match &e {
                    ProfileError::ProfileNotAvailable(_) => false,
                    _ => true,
                };
                if abort {
                    proof {
                        assert(aggregate_spec(provider, rest_views) == Err::<
                            Seq<(DisplayView, ProfileInfoView)>,
                            ProfileErrorView,
                        >(e@));
                    }
                    return Err(e);
                }
            },
        }
        i = i + 1;
    }
    proof {
        assert(dvs.skip(i as int) =~= Seq::<DisplayView>::empty());
        if aggregate_spec(provider, dvs) is Ok {
            assert(aggregate_spec(provider, dvs)->Ok_0 =~= pair_views(results@));
        }
    }
    Ok(results)
}

} // verus!
